//! The persistent policy store.
//!
//! Three tables: application records keyed by the primary identifier, policy
//! rows keyed by (application, permission) and unique per key, and an
//! append-only audit log.  The store is the single source of truth: every
//! component reads and mutates policy state through it and nothing caches
//! mutable state across calls.  Durable persistence of the rows is the
//! embedding program's business; the store itself defines the row semantics:
//! upsert on conflict, expiry filtering at read time, and the expiry sweep.
//!
//! Expiry boundary: a row whose `expires_at` equals the current time is
//! already expired — a lookup at `now` returns a decision only while
//! `now < expires_at`.

use vstd::prelude::*;

use crate::app_id::AppId;
use crate::types::PermissionType;
use crate::types::PromptDecision;
use crate::types::perm_eq;

verus! {

/// One application known to the store: the referential parent of policy and
/// audit rows.
#[derive(Debug)]
pub struct AppRecord {
    pub primary: String,
    pub binary_hash: Option<String>,
    pub first_seen: i64,
    pub last_seen: i64,
}

/// One persisted decision for an (application, permission) key.
#[derive(Debug)]
pub struct PolicyRow {
    pub app_id: String,
    pub permission: PermissionType,
    pub decision: PromptDecision,
    /// Unix seconds after which the row no longer counts, `None` to persist
    /// until explicitly deleted.
    pub expires_at: Option<i64>,
    pub created_at: i64,
}

/// One resolved permission check, recorded exactly once and never mutated.
#[derive(Debug)]
pub struct AuditEntry {
    pub timestamp: i64,
    pub app_id: String,
    pub pid: u32,
    pub uid: u32,
    pub permission: PermissionType,
    pub decision: Option<PromptDecision>,
    pub granted: bool,
    pub was_prompted: bool,
}

impl Clone for AppRecord {
    fn clone(&self) -> (r: Self)
        ensures
            r == *self,
    {
        AppRecord {
            primary: self.primary.clone(),
            binary_hash: match &self.binary_hash {
                Some(h) => Some(h.clone()),
                None => None,
            },
            first_seen: self.first_seen,
            last_seen: self.last_seen,
        }
    }
}

impl Clone for PolicyRow {
    fn clone(&self) -> (r: Self)
        ensures
            r == *self,
    {
        PolicyRow {
            app_id: self.app_id.clone(),
            permission: self.permission.clone(),
            decision: self.decision,
            expires_at: self.expires_at,
            created_at: self.created_at,
        }
    }
}

impl Clone for AuditEntry {
    fn clone(&self) -> (r: Self)
        ensures
            r == *self,
    {
        AuditEntry {
            timestamp: self.timestamp,
            app_id: self.app_id.clone(),
            pid: self.pid,
            uid: self.uid,
            permission: self.permission.clone(),
            decision: self.decision,
            granted: self.granted,
            was_prompted: self.was_prompted,
        }
    }
}

/// Whether a policy row belongs to the (application, permission) key.
pub open spec fn policy_key_matches(r: PolicyRow, app: Seq<char>, p: PermissionType) -> bool {
    r.app_id@ == app && perm_eq(&r.permission, &p)
}

/// The first policy row for the key, `None` when the key has no row.
pub open spec fn lookup_policy(s: Seq<PolicyRow>, app: Seq<char>, p: PermissionType) -> Option<
    PolicyRow,
>
    decreases s.len(),
{
    if s.len() == 0 {
        Option::None
    } else if policy_key_matches(s[0], app, p) {
        Option::Some(s[0])
    } else {
        lookup_policy(s.drop_first(), app, p)
    }
}

/// The policy table after writing `row`: the first row with the same key is
/// replaced in place, or `row` is appended when the key is new.
pub open spec fn upsert_policy(s: Seq<PolicyRow>, row: PolicyRow) -> Seq<PolicyRow>
    decreases s.len(),
{
    if s.len() == 0 {
        seq![row]
    } else if policy_key_matches(s[0], row.app_id@, row.permission) {
        seq![row] + s.drop_first()
    } else {
        seq![s[0]] + upsert_policy(s.drop_first(), row)
    }
}

/// How many rows of the table belong to the key.
pub open spec fn count_key(s: Seq<PolicyRow>, app: Seq<char>, p: PermissionType) -> int
    decreases s.len(),
{
    if s.len() == 0 {
        0
    } else {
        (if policy_key_matches(s[0], app, p) {
            1int
        } else {
            0int
        }) + count_key(s.drop_first(), app, p)
    }
}

/// No two rows share a key: the uniqueness constraint of the policy table.
pub open spec fn policies_unique(s: Seq<PolicyRow>) -> bool {
    forall|i: int, j: int|
        #![trigger s[i], s[j]]
        0 <= i < j < s.len() ==> !policy_key_matches(s[i], s[j].app_id@, s[j].permission)
}

/// Whether an application record carries the primary key.
pub open spec fn app_key_matches(r: AppRecord, primary: Seq<char>) -> bool {
    r.primary@ == primary
}

/// The application table after registering `app` at time `now`: an existing
/// record keeps its `first_seen` and primary string and takes the new digest
/// and `last_seen`; a new application gets a fresh record.
pub open spec fn upsert_app(s: Seq<AppRecord>, app: AppId, now: i64) -> Seq<AppRecord>
    decreases s.len(),
{
    if s.len() == 0 {
        seq![
            (AppRecord {
                primary: app.primary,
                binary_hash: app.binary_hash,
                first_seen: now,
                last_seen: now,
            }),
        ]
    } else if app_key_matches(s[0], app.primary@) {
        seq![
            (AppRecord {
                primary: s[0].primary,
                binary_hash: app.binary_hash,
                first_seen: s[0].first_seen,
                last_seen: now,
            }),
        ] + s.drop_first()
    } else {
        seq![s[0]] + upsert_app(s.drop_first(), app, now)
    }
}

/// No two application records share a primary key.
pub open spec fn apps_unique(s: Seq<AppRecord>) -> bool {
    forall|i: int, j: int|
        #![trigger s[i], s[j]]
        0 <= i < j < s.len() ==> s[i].primary@ != s[j].primary@
}

/// Whether a row is still current at `now`: rows without expiry always are;
/// a row with an expiry counts only strictly before it.
pub open spec fn valid_at(expires_at: Option<i64>, now: i64) -> bool {
    match expires_at {
        Option::Some(e) => now < e,
        Option::None => true,
    }
}

/// Whether the expiry sweep removes the row at `now`: only rows with an
/// expiry strictly in the past.
pub open spec fn row_swept(r: PolicyRow, now: i64) -> bool {
    match r.expires_at {
        Option::Some(e) => e < now,
        Option::None => false,
    }
}

/// The policy table after the expiry sweep at `now`.
pub open spec fn sweep_expired(s: Seq<PolicyRow>, now: i64) -> Seq<PolicyRow>
    decreases s.len(),
{
    if s.len() == 0 {
        Seq::empty()
    } else {
        let rest = sweep_expired(s.drop_last(), now);
        if row_swept(s.last(), now) {
            rest
        } else {
            rest.push(s.last())
        }
    }
}

/// The policy table with every row of the key removed.
pub open spec fn remove_policy(s: Seq<PolicyRow>, app: Seq<char>, p: PermissionType) -> Seq<
    PolicyRow,
>
    decreases s.len(),
{
    if s.len() == 0 {
        Seq::empty()
    } else {
        let rest = remove_policy(s.drop_last(), app, p);
        if policy_key_matches(s.last(), app, p) {
            rest
        } else {
            rest.push(s.last())
        }
    }
}

/// The policy table with every row of the application removed.
pub open spec fn remove_app_policies(s: Seq<PolicyRow>, app: Seq<char>) -> Seq<PolicyRow>
    decreases s.len(),
{
    if s.len() == 0 {
        Seq::empty()
    } else {
        let rest = remove_app_policies(s.drop_last(), app);
        if s.last().app_id@ == app {
            rest
        } else {
            rest.push(s.last())
        }
    }
}

/// The expiry written by the store for a decision made at `now`: `now` plus
/// the duration for time-bounded grants, saturating at the largest
/// representable time, and no expiry for every other decision kind.
pub open spec fn decision_expiry(d: PromptDecision, now: i64) -> Option<i64> {
    match d {
        PromptDecision::AllowDuration(secs) => {
            let e = now as int + secs as int;
            Option::Some(
                if e > i64::MAX as int {
                    i64::MAX
                } else {
                    e as i64
                },
            )
        },
        _ => Option::None,
    }
}

/// The policy row that storing `d` for (`app`, `p`) at time `now` writes.
pub open spec fn stored_row(app: AppId, p: PermissionType, d: PromptDecision, now: i64) -> PolicyRow {
    PolicyRow {
        app_id: app.primary,
        permission: p,
        decision: d,
        expires_at: decision_expiry(d, now),
        created_at: now,
    }
}

/// What a cache lookup for (`app`, `p`) at time `now` yields from the table:
/// the stored decision while the row is current, and nothing once it has
/// expired or when no row exists.
pub open spec fn spec_get_policy(
    s: Seq<PolicyRow>,
    app: Seq<char>,
    p: PermissionType,
    now: i64,
) -> Option<PromptDecision> {
    match lookup_policy(s, app, p) {
        Option::Some(r) => if valid_at(r.expires_at, now) {
            Option::Some(r.decision)
        } else {
            Option::None
        },
        Option::None => Option::None,
    }
}

/// The (permission, decision) pairs of the application's rows that are still
/// current at `now`, in table order.
pub open spec fn app_policies_at(s: Seq<PolicyRow>, app: Seq<char>, now: i64) -> Seq<
    (PermissionType, PromptDecision),
>
    decreases s.len(),
{
    if s.len() == 0 {
        Seq::empty()
    } else {
        let rest = app_policies_at(s.drop_last(), app, now);
        if s.last().app_id@ == app && valid_at(s.last().expires_at, now) {
            rest.push((s.last().permission, s.last().decision))
        } else {
            rest
        }
    }
}

/// The policy table after storing each (permission, decision) pair of the
/// list for the application in turn, first to last.
pub open spec fn upsert_all(
    s: Seq<PolicyRow>,
    app: AppId,
    list: Seq<(PermissionType, PromptDecision)>,
    now: i64,
) -> Seq<PolicyRow>
    decreases list.len(),
{
    if list.len() == 0 {
        s
    } else {
        upsert_all(
            upsert_policy(s, stored_row(app, list[0].0, list[0].1, now)),
            app,
            list.drop_first(),
            now,
        )
    }
}

/// Registering the same application twice at the same time is the same as
/// registering it once.
pub proof fn lemma_upsert_app_idempotent(s: Seq<AppRecord>, app: AppId, now: i64)
    ensures
        upsert_app(upsert_app(s, app, now), app, now) == upsert_app(s, app, now),
    decreases s.len(),
{
    let u = upsert_app(s, app, now);
    if s.len() == 0 {
        assert(u[0].primary@ == app.primary@);
        assert(upsert_app(u, app, now) =~= u);
    } else if app_key_matches(s[0], app.primary@) {
        assert(u[0].primary@ == app.primary@);
        assert(u.drop_first() =~= s.drop_first());
        assert(upsert_app(u, app, now) =~= u);
    } else {
        lemma_upsert_app_idempotent(s.drop_first(), app, now);
        assert(u[0] == s[0]);
        assert(u.drop_first() =~= upsert_app(s.drop_first(), app, now));
        assert(upsert_app(u, app, now) =~= u);
    }
}

/// The most recent `limit` audit entries, newest first (in reverse insertion
/// order).
pub open spec fn recent_audit(s: Seq<AuditEntry>, limit: int) -> Seq<AuditEntry> {
    let n = if limit < 0 {
        0
    } else if limit <= s.len() {
        limit
    } else {
        s.len() as int
    };
    Seq::new(n as nat, |i: int| s[s.len() - 1 - i])
}

/// A first match at position `i` is what `lookup_policy` returns.
pub proof fn lemma_lookup_policy_found(s: Seq<PolicyRow>, app: Seq<char>, p: PermissionType, i: int)
    requires
        0 <= i < s.len(),
        policy_key_matches(s[i], app, p),
        forall|j: int| 0 <= j < i ==> !policy_key_matches(#[trigger] s[j], app, p),
    ensures
        lookup_policy(s, app, p) == Option::Some(s[i]),
    decreases i,
{
    if i > 0 {
        lemma_lookup_policy_found(s.drop_first(), app, p, i - 1);
    }
}

/// A table with no row for the key makes `lookup_policy` return `None`.
pub proof fn lemma_lookup_policy_absent(s: Seq<PolicyRow>, app: Seq<char>, p: PermissionType)
    requires
        forall|j: int| 0 <= j < s.len() ==> !policy_key_matches(#[trigger] s[j], app, p),
    ensures
        lookup_policy(s, app, p) is None,
    decreases s.len(),
{
    if s.len() > 0 {
        lemma_lookup_policy_absent(s.drop_first(), app, p);
    }
}

/// When the first row of the key stands at position `i`, the upsert replaces
/// exactly that row.
pub proof fn lemma_upsert_policy_found(s: Seq<PolicyRow>, row: PolicyRow, i: int)
    requires
        0 <= i < s.len(),
        policy_key_matches(s[i], row.app_id@, row.permission),
        forall|j: int| 0 <= j < i ==> !policy_key_matches(#[trigger] s[j], row.app_id@, row.permission),
    ensures
        upsert_policy(s, row) == s.update(i, row),
    decreases i,
{
    if i == 0 {
        assert(upsert_policy(s, row) =~= s.update(0, row));
    } else {
        lemma_upsert_policy_found(s.drop_first(), row, i - 1);
        assert(upsert_policy(s, row) =~= s.update(i, row));
    }
}

/// When the key has no row yet, the upsert appends the new row.
pub proof fn lemma_upsert_policy_absent(s: Seq<PolicyRow>, row: PolicyRow)
    requires
        forall|j: int| 0 <= j < s.len() ==> !policy_key_matches(#[trigger] s[j], row.app_id@, row.permission),
    ensures
        upsert_policy(s, row) == s.push(row),
    decreases s.len(),
{
    if s.len() == 0 {
        assert(upsert_policy(s, row) =~= s.push(row));
    } else {
        lemma_upsert_policy_absent(s.drop_first(), row);
        assert(upsert_policy(s, row) =~= s.push(row));
    }
}

/// Registering an already-known application updates its record in place.
pub proof fn lemma_upsert_app_found(s: Seq<AppRecord>, app: AppId, now: i64, i: int)
    requires
        0 <= i < s.len(),
        app_key_matches(s[i], app.primary@),
        forall|j: int| 0 <= j < i ==> !app_key_matches(#[trigger] s[j], app.primary@),
    ensures
        upsert_app(s, app, now) == s.update(
            i,
            (AppRecord {
                primary: s[i].primary,
                binary_hash: app.binary_hash,
                first_seen: s[i].first_seen,
                last_seen: now,
            }),
        ),
    decreases i,
{
    if i == 0 {
        assert(upsert_app(s, app, now) =~= s.update(
            0,
            (AppRecord {
                primary: s[0].primary,
                binary_hash: app.binary_hash,
                first_seen: s[0].first_seen,
                last_seen: now,
            }),
        ));
    } else {
        lemma_upsert_app_found(s.drop_first(), app, now, i - 1);
        assert(upsert_app(s, app, now) =~= s.update(
            i,
            (AppRecord {
                primary: s[i].primary,
                binary_hash: app.binary_hash,
                first_seen: s[i].first_seen,
                last_seen: now,
            }),
        ));
    }
}

/// Registering a new application appends its record.
pub proof fn lemma_upsert_app_absent(s: Seq<AppRecord>, app: AppId, now: i64)
    requires
        forall|j: int| 0 <= j < s.len() ==> !app_key_matches(#[trigger] s[j], app.primary@),
    ensures
        upsert_app(s, app, now) == s.push(
            (AppRecord {
                primary: app.primary,
                binary_hash: app.binary_hash,
                first_seen: now,
                last_seen: now,
            }),
        ),
    decreases s.len(),
{
    if s.len() == 0 {
        assert(upsert_app(s, app, now) =~= s.push(
            (AppRecord {
                primary: app.primary,
                binary_hash: app.binary_hash,
                first_seen: now,
                last_seen: now,
            }),
        ));
    } else {
        lemma_upsert_app_absent(s.drop_first(), app, now);
        assert(upsert_app(s, app, now) =~= s.push(
            (AppRecord {
                primary: app.primary,
                binary_hash: app.binary_hash,
                first_seen: now,
                last_seen: now,
            }),
        ));
    }
}

/// The number of seconds since the Unix epoch, read from the system clock.
/// Relies on std::time::SystemTime::now; the reading is converted to seconds
/// and is never negative.
#[verifier::external_body]
pub fn current_timestamp() -> (r: i64)
    ensures
        r >= 0,
{
    let secs = std::time::SystemTime::now()
        .duration_since(std::time::UNIX_EPOCH)
        .map(|d| d.as_secs())
        .unwrap_or(0);
    i64::try_from(secs).unwrap_or(i64::MAX)
}

/// The saturating expiry timestamp for a decision made at `now`.
fn compute_expiry(decision: &PromptDecision, now: i64) -> (r: Option<i64>)
    ensures
        r == decision_expiry(*decision, now),
{
    match decision {
        PromptDecision::AllowDuration(secs) => {
            let e: i128 = now as i128 + *secs as i128;
            if e > i64::MAX as i128 {
                Some(i64::MAX)
            } else {
                Some(e as i64)
            }
        },
        _ => None,
    }
}

/// The persistent store: applications, policies (unique per key), and the
/// append-only audit log.
pub struct Database {
    applications: Vec<AppRecord>,
    policies: Vec<PolicyRow>,
    audit_log: Vec<AuditEntry>,
}

impl Database {
    /// The application table.
    pub closed spec fn applications(&self) -> Seq<AppRecord> {
        self.applications@
    }

    /// The policy table.
    pub closed spec fn policies(&self) -> Seq<PolicyRow> {
        self.policies@
    }

    /// The audit log, in insertion order.
    pub closed spec fn audit_log(&self) -> Seq<AuditEntry> {
        self.audit_log@
    }

    /// The schema constraints: (application, permission) is unique in the
    /// policy table and the primary key is unique in the application table.
    pub open spec fn wf(&self) -> bool {
        policies_unique(self.policies()) && apps_unique(self.applications())
    }

    /// An empty store.
    pub fn new() -> (db: Database)
        ensures
            db.applications() == Seq::<AppRecord>::empty(),
            db.policies() == Seq::<PolicyRow>::empty(),
            db.audit_log() == Seq::<AuditEntry>::empty(),
            db.wf(),
    {
        Database { applications: Vec::new(), policies: Vec::new(), audit_log: Vec::new() }
    }

    /// Idempotent upsert of an application record: the side effect of every
    /// policy or audit write.  Updates `last_seen`, overwrites the recorded
    /// digest, and keeps `first_seen` for a known application.
    pub fn register_application(&mut self, app_id: &AppId, now: i64)
        requires
            old(self).wf(),
        ensures
            final(self).wf(),
            final(self).applications() == upsert_app(old(self).applications(), *app_id, now),
            final(self).policies() == old(self).policies(),
            final(self).audit_log() == old(self).audit_log(),
    {
        let ghost s = self.applications@;
        proof {
            assert(apps_unique(s));
        }
        let mut i: usize = 0;
        let n = self.applications.len();
        while i < n
            invariant
                i <= n,
                n == self.applications.len(),
                apps_unique(s),
                s == self.applications@,
                s == old(self).applications(),
                self.policies@ == old(self).policies(),
                self.audit_log@ == old(self).audit_log(),
                policies_unique(self.policies@),
                forall|j: int| 0 <= j < i ==> !app_key_matches(#[trigger] s[j], app_id.primary@),
            decreases n - i,
        {
            if self.applications[i].primary == app_id.primary {
                let old_row = self.applications.remove(i);
                let new_row = AppRecord {
                    primary: old_row.primary,
                    binary_hash: match &app_id.binary_hash {
                        Some(h) => Some(h.clone()),
                        None => None,
                    },
                    first_seen: old_row.first_seen,
                    last_seen: now,
                };
                self.applications.insert(i, new_row);
                proof {
                    lemma_upsert_app_found(s, *app_id, now, i as int);
                    assert(self.applications@ =~= s.update(i as int, new_row));
                    assert(apps_unique(self.applications@)) by {
                        assert forall|a: int, b: int|
                            #![trigger self.applications@[a], self.applications@[b]]
                            0 <= a < b < self.applications@.len() implies self.applications@[a].primary@
                            != self.applications@[b].primary@ by {
                            assert(s[a].primary@ != s[b].primary@);
                        }
                    }
                }
                return ;
            }
            i += 1;
        }
        let new_row = AppRecord {
            primary: app_id.primary.clone(),
            binary_hash: match &app_id.binary_hash {
                Some(h) => Some(h.clone()),
                None => None,
            },
            first_seen: now,
            last_seen: now,
        };
        self.applications.push(new_row);
        proof {
            lemma_upsert_app_absent(s, *app_id, now);
            assert(apps_unique(self.applications@)) by {
                assert forall|a: int, b: int|
                    #![trigger self.applications@[a], self.applications@[b]]
                    0 <= a < b < self.applications@.len() implies self.applications@[a].primary@
                    != self.applications@[b].primary@ by {
                    if b < s.len() {
                        assert(s[a].primary@ != s[b].primary@);
                    } else {
                        assert(!app_key_matches(s[a], app_id.primary@));
                    }
                }
            }
        }
    }

    /// Look up the cached decision for (`app_id`, `permission`) at time
    /// `now`.  An expired row is treated as absent, never returned stale; a
    /// missing row is a plain `None`, not an error.
    /// The position of the key's row in the policy table, if any.
    fn find_policy_index(&self, app_id: &AppId, permission: &PermissionType) -> (r: Option<usize>)
        ensures
            match r {
                Option::Some(i) => {
                    &&& i < self.policies().len()
                    &&& policy_key_matches(self.policies()[i as int], app_id.primary@, *permission)
                    &&& forall|j: int|
                        0 <= j < i ==> !policy_key_matches(
                            #[trigger] self.policies()[j],
                            app_id.primary@,
                            *permission,
                        )
                },
                Option::None => forall|j: int|
                    0 <= j < self.policies().len() ==> !policy_key_matches(
                        #[trigger] self.policies()[j],
                        app_id.primary@,
                        *permission,
                    ),
            },
    {
        let mut i: usize = 0;
        let n = self.policies.len();
        while i < n
            invariant
                i <= n,
                n == self.policies.len(),
                forall|j: int|
                    0 <= j < i ==> !policy_key_matches(
                        #[trigger] self.policies()[j],
                        app_id.primary@,
                        *permission,
                    ),
            decreases n - i,
        {
            let row = &self.policies[i];
            if row.app_id == app_id.primary && row.permission == *permission {
                return Some(i);
            }
            i += 1;
        }
        None
    }

    pub fn get_policy(&self, app_id: &AppId, permission: &PermissionType, now: i64) -> (r: Option<
        PromptDecision,
    >)
        ensures
            r == spec_get_policy(self.policies(), app_id.primary@, *permission, now),
    {
        match self.find_policy_index(app_id, permission) {
            Some(i) => {
                proof {
                    lemma_lookup_policy_found(self.policies(), app_id.primary@, *permission, i as int);
                }
                let row = &self.policies[i];
                let current = match row.expires_at {
                    Some(e) => now < e,
                    None => true,
                };
                if current {
                    Some(row.decision)
                } else {
                    None
                }
            },
            None => {
                proof {
                    lemma_lookup_policy_absent(self.policies(), app_id.primary@, *permission);
                }
                None
            },
        }
    }

    /// Persist a decision for (`app_id`, `permission`) made at time `now`:
    /// registers the application, then upserts the policy row, computing an
    /// expiry of `now` plus the duration for `AllowDuration` and no expiry
    /// for every other kind.
    pub fn store_policy(
        &mut self,
        app_id: &AppId,
        permission: &PermissionType,
        decision: &PromptDecision,
        now: i64,
    )
        requires
            old(self).wf(),
        ensures
            final(self).wf(),
            final(self).policies() == upsert_policy(
                old(self).policies(),
                stored_row(*app_id, *permission, *decision, now),
            ),
            final(self).applications() == upsert_app(old(self).applications(), *app_id, now),
            final(self).audit_log() == old(self).audit_log(),
    {
        self.register_application(app_id, now);
        let expires_at = compute_expiry(decision, now);
        let row = PolicyRow {
            app_id: app_id.primary.clone(),
            permission: permission.clone(),
            decision: *decision,
            expires_at,
            created_at: now,
        };
        let ghost target = stored_row(*app_id, *permission, *decision, now);
        assert(row == target);
        let ghost s = self.policies@;
        match self.find_policy_index(app_id, permission) {
            Some(i) => {
                self.policies.remove(i);
                self.policies.insert(i, row);
                proof {
                    lemma_upsert_policy_found(s, target, i as int);
                    assert(self.policies@ =~= s.update(i as int, target));
                    lemma_unique_after_update(s, target, i as int);
                }
            },
            None => {
                self.policies.push(row);
                proof {
                    lemma_upsert_policy_absent(s, target);
                    lemma_unique_after_push(s, target);
                }
            },
        }
    }
}

impl Database {
    /// All (permission, decision) pairs of the application that are still
    /// current at `now`, in table order; expired rows are filtered out just
    /// as in a single lookup.
    pub fn get_app_policies(&self, app_id: &AppId, now: i64) -> (r: Vec<
        (PermissionType, PromptDecision),
    >)
        ensures
            r@ == app_policies_at(self.policies(), app_id.primary@, now),
    {
        let ghost s = self.policies@;
        let mut out: Vec<(PermissionType, PromptDecision)> = Vec::new();
        let n = self.policies.len();
        let mut i: usize = 0;
        while i < n
            invariant
                i <= n,
                n == self.policies.len(),
                s == self.policies@,
                out@ == app_policies_at(s.take(i as int), app_id.primary@, now),
            decreases n - i,
        {
            let row = &self.policies[i];
            let current = match row.expires_at {
                Some(e) => now < e,
                None => true,
            };
            if row.app_id == app_id.primary && current {
                out.push((row.permission.clone(), row.decision));
            }
            proof {
                assert(s.take(i + 1).drop_last() =~= s.take(i as int));
                assert(s.take(i + 1).last() == s[i as int]);
            }
            i += 1;
        }
        proof {
            assert(s.take(n as int) =~= s);
        }
        out
    }

    /// Append one audit entry at time `now`, registering the application
    /// first so the entry always has its referential parent.  The log is
    /// append-only: nothing else about the store changes.
    pub fn log_audit(
        &mut self,
        app_id: &AppId,
        pid: u32,
        uid: u32,
        permission: &PermissionType,
        decision: Option<PromptDecision>,
        granted: bool,
        was_prompted: bool,
        now: i64,
    )
        requires
            old(self).wf(),
        ensures
            final(self).wf(),
            final(self).audit_log() == old(self).audit_log().push(
                (AuditEntry {
                    timestamp: now,
                    app_id: app_id.primary,
                    pid,
                    uid,
                    permission: *permission,
                    decision,
                    granted,
                    was_prompted,
                }),
            ),
            final(self).applications() == upsert_app(old(self).applications(), *app_id, now),
            final(self).policies() == old(self).policies(),
    {
        self.register_application(app_id, now);
        let entry = AuditEntry {
            timestamp: now,
            app_id: app_id.primary.clone(),
            pid,
            uid,
            permission: permission.clone(),
            decision,
            granted,
            was_prompted,
        };
        self.audit_log.push(entry);
    }

    /// The most recent `limit` audit entries, newest first.
    pub fn get_audit_entries(&self, limit: usize) -> (r: Vec<AuditEntry>)
        ensures
            r@ == recent_audit(self.audit_log(), limit as int),
    {
        let ghost s = self.audit_log@;
        let total = self.audit_log.len();
        let n = if limit < total {
            limit
        } else {
            total
        };
        let mut out: Vec<AuditEntry> = Vec::new();
        let mut k: usize = 0;
        while k < n
            invariant
                k <= n,
                n <= total,
                total == self.audit_log.len(),
                s == self.audit_log@,
                out@.len() == k,
                forall|t: int| 0 <= t < k ==> out@[t] == s[s.len() - 1 - t],
            decreases n - k,
        {
            let entry = self.audit_log[total - 1 - k].clone();
            out.push(entry);
            k += 1;
        }
        proof {
            assert(out@ =~= recent_audit(s, limit as int));
        }
        out
    }

    /// Delete every policy row whose expiry lies strictly in the past, and
    /// say how many went.  Rows without expiry and rows expiring exactly at
    /// `now` stay (though a lookup at `now` already treats the latter as
    /// absent).
    pub fn cleanup_expired_policies(&mut self, now: i64) -> (count: usize)
        requires
            old(self).wf(),
        ensures
            final(self).wf(),
            final(self).policies() == sweep_expired(old(self).policies(), now),
            count == old(self).policies().len() - final(self).policies().len(),
            final(self).applications() == old(self).applications(),
            final(self).audit_log() == old(self).audit_log(),
    {
        let ghost s = self.policies@;
        let mut kept: Vec<PolicyRow> = Vec::new();
        let n = self.policies.len();
        let mut i: usize = 0;
        while i < n
            invariant
                i <= n,
                n == self.policies.len(),
                s == self.policies@,
                kept@ == sweep_expired(s.take(i as int), now),
                kept@.len() <= i,
            decreases n - i,
        {
            let row = &self.policies[i];
            let swept = match row.expires_at {
                Some(e) => e < now,
                None => false,
            };
            if !swept {
                kept.push(row.clone());
            }
            proof {
                assert(s.take(i + 1).drop_last() =~= s.take(i as int));
                assert(s.take(i + 1).last() == s[i as int]);
            }
            i += 1;
        }
        proof {
            assert(s.take(n as int) =~= s);
            lemma_sweep_expired_unique(s, now);
        }
        let count = n - kept.len();
        self.policies = kept;
        count
    }

    /// Delete the policy row of the key, when one exists.
    pub fn delete_policy(&mut self, app_id: &AppId, permission: &PermissionType)
        requires
            old(self).wf(),
        ensures
            final(self).wf(),
            final(self).policies() == remove_policy(
                old(self).policies(),
                app_id.primary@,
                *permission,
            ),
            final(self).applications() == old(self).applications(),
            final(self).audit_log() == old(self).audit_log(),
    {
        let ghost s = self.policies@;
        let mut kept: Vec<PolicyRow> = Vec::new();
        let n = self.policies.len();
        let mut i: usize = 0;
        while i < n
            invariant
                i <= n,
                n == self.policies.len(),
                s == self.policies@,
                kept@ == remove_policy(s.take(i as int), app_id.primary@, *permission),
            decreases n - i,
        {
            let row = &self.policies[i];
            if !(row.app_id == app_id.primary && row.permission == *permission) {
                kept.push(row.clone());
            }
            proof {
                assert(s.take(i + 1).drop_last() =~= s.take(i as int));
                assert(s.take(i + 1).last() == s[i as int]);
            }
            i += 1;
        }
        proof {
            assert(s.take(n as int) =~= s);
            lemma_remove_policy_unique(s, app_id.primary@, *permission);
        }
        self.policies = kept;
    }

    /// Delete every policy row of the application.
    pub fn delete_app_policies(&mut self, app_id: &AppId)
        requires
            old(self).wf(),
        ensures
            final(self).wf(),
            final(self).policies() == remove_app_policies(old(self).policies(), app_id.primary@),
            final(self).applications() == old(self).applications(),
            final(self).audit_log() == old(self).audit_log(),
    {
        let ghost s = self.policies@;
        let mut kept: Vec<PolicyRow> = Vec::new();
        let n = self.policies.len();
        let mut i: usize = 0;
        while i < n
            invariant
                i <= n,
                n == self.policies.len(),
                s == self.policies@,
                kept@ == remove_app_policies(s.take(i as int), app_id.primary@),
            decreases n - i,
        {
            let row = &self.policies[i];
            if !(row.app_id == app_id.primary) {
                kept.push(row.clone());
            }
            proof {
                assert(s.take(i + 1).drop_last() =~= s.take(i as int));
                assert(s.take(i + 1).last() == s[i as int]);
            }
            i += 1;
        }
        proof {
            assert(s.take(n as int) =~= s);
            lemma_remove_app_policies_unique(s, app_id.primary@);
        }
        self.policies = kept;
    }
}

/// Dropping the last row keeps the keys unique.
proof fn lemma_unique_drop_last(s: Seq<PolicyRow>)
    requires
        policies_unique(s),
        s.len() > 0,
    ensures
        policies_unique(s.drop_last()),
{
    let d = s.drop_last();
    assert forall|a: int, b: int|
        #![trigger d[a], d[b]]
        0 <= a < b < d.len() implies !policy_key_matches(d[a], d[b].app_id@, d[b].permission) by {
        assert(!policy_key_matches(s[a], s[b].app_id@, s[b].permission));
    }
}

/// The expiry sweep keeps the keys unique, and every surviving row stood in
/// the table before.
proof fn lemma_sweep_expired_unique(s: Seq<PolicyRow>, now: i64)
    requires
        policies_unique(s),
    ensures
        policies_unique(sweep_expired(s, now)),
        forall|i: int|
            0 <= i < sweep_expired(s, now).len() ==> exists|j: int|
                0 <= j < s.len() && s[j] == #[trigger] sweep_expired(s, now)[i],
    decreases s.len(),
{
    if s.len() > 0 {
        let d = s.drop_last();
        lemma_unique_drop_last(s);
        lemma_sweep_expired_unique(d, now);
        let f = sweep_expired(s, now);
        let rest = sweep_expired(d, now);
        if !row_swept(s.last(), now) {
            assert forall|a: int, b: int|
                #![trigger f[a], f[b]]
                0 <= a < b < f.len() implies !policy_key_matches(f[a], f[b].app_id@, f[b].permission) by {
                if b == f.len() - 1 {
                    let j = choose|j: int| 0 <= j < d.len() && d[j] == rest[a];
                    assert(!policy_key_matches(s[j], s[s.len() - 1].app_id@, s[s.len() - 1].permission));
                } else {
                    assert(!policy_key_matches(rest[a], rest[b].app_id@, rest[b].permission));
                }
            }
            assert forall|i: int| 0 <= i < f.len() implies exists|j: int|
                0 <= j < s.len() && s[j] == #[trigger] f[i] by {
                if i == f.len() - 1 {
                    assert(s[s.len() - 1] == f[i]);
                } else {
                    let j = choose|j: int| 0 <= j < d.len() && d[j] == rest[i];
                    assert(s[j] == f[i]);
                }
            }
        } else {
            assert forall|i: int| 0 <= i < f.len() implies exists|j: int|
                0 <= j < s.len() && s[j] == #[trigger] f[i] by {
                let j = choose|j: int| 0 <= j < d.len() && d[j] == rest[i];
                assert(s[j] == f[i]);
            }
        }
    }
}

/// Removing a key keeps the remaining keys unique, and every surviving row
/// stood in the table before.
proof fn lemma_remove_policy_unique(s: Seq<PolicyRow>, app: Seq<char>, p: PermissionType)
    requires
        policies_unique(s),
    ensures
        policies_unique(remove_policy(s, app, p)),
        forall|i: int|
            0 <= i < remove_policy(s, app, p).len() ==> exists|j: int|
                0 <= j < s.len() && s[j] == #[trigger] remove_policy(s, app, p)[i],
    decreases s.len(),
{
    if s.len() > 0 {
        let d = s.drop_last();
        lemma_unique_drop_last(s);
        lemma_remove_policy_unique(d, app, p);
        let f = remove_policy(s, app, p);
        let rest = remove_policy(d, app, p);
        if !policy_key_matches(s.last(), app, p) {
            assert forall|a: int, b: int|
                #![trigger f[a], f[b]]
                0 <= a < b < f.len() implies !policy_key_matches(f[a], f[b].app_id@, f[b].permission) by {
                if b == f.len() - 1 {
                    let j = choose|j: int| 0 <= j < d.len() && d[j] == rest[a];
                    assert(!policy_key_matches(s[j], s[s.len() - 1].app_id@, s[s.len() - 1].permission));
                } else {
                    assert(!policy_key_matches(rest[a], rest[b].app_id@, rest[b].permission));
                }
            }
            assert forall|i: int| 0 <= i < f.len() implies exists|j: int|
                0 <= j < s.len() && s[j] == #[trigger] f[i] by {
                if i == f.len() - 1 {
                    assert(s[s.len() - 1] == f[i]);
                } else {
                    let j = choose|j: int| 0 <= j < d.len() && d[j] == rest[i];
                    assert(s[j] == f[i]);
                }
            }
        } else {
            assert forall|i: int| 0 <= i < f.len() implies exists|j: int|
                0 <= j < s.len() && s[j] == #[trigger] f[i] by {
                let j = choose|j: int| 0 <= j < d.len() && d[j] == rest[i];
                assert(s[j] == f[i]);
            }
        }
    }
}

/// Removing an application's rows keeps the remaining keys unique, and every
/// surviving row stood in the table before.
proof fn lemma_remove_app_policies_unique(s: Seq<PolicyRow>, app: Seq<char>)
    requires
        policies_unique(s),
    ensures
        policies_unique(remove_app_policies(s, app)),
        forall|i: int|
            0 <= i < remove_app_policies(s, app).len() ==> exists|j: int|
                0 <= j < s.len() && s[j] == #[trigger] remove_app_policies(s, app)[i],
    decreases s.len(),
{
    if s.len() > 0 {
        let d = s.drop_last();
        lemma_unique_drop_last(s);
        lemma_remove_app_policies_unique(d, app);
        let f = remove_app_policies(s, app);
        let rest = remove_app_policies(d, app);
        if s.last().app_id@ != app {
            assert forall|a: int, b: int|
                #![trigger f[a], f[b]]
                0 <= a < b < f.len() implies !policy_key_matches(f[a], f[b].app_id@, f[b].permission) by {
                if b == f.len() - 1 {
                    let j = choose|j: int| 0 <= j < d.len() && d[j] == rest[a];
                    assert(!policy_key_matches(s[j], s[s.len() - 1].app_id@, s[s.len() - 1].permission));
                } else {
                    assert(!policy_key_matches(rest[a], rest[b].app_id@, rest[b].permission));
                }
            }
            assert forall|i: int| 0 <= i < f.len() implies exists|j: int|
                0 <= j < s.len() && s[j] == #[trigger] f[i] by {
                if i == f.len() - 1 {
                    assert(s[s.len() - 1] == f[i]);
                } else {
                    let j = choose|j: int| 0 <= j < d.len() && d[j] == rest[i];
                    assert(s[j] == f[i]);
                }
            }
        } else {
            assert forall|i: int| 0 <= i < f.len() implies exists|j: int|
                0 <= j < s.len() && s[j] == #[trigger] f[i] by {
                let j = choose|j: int| 0 <= j < d.len() && d[j] == rest[i];
                assert(s[j] == f[i]);
            }
        }
    }
}

/// Dropping the first row keeps the keys unique.
proof fn lemma_unique_drop_first(s: Seq<PolicyRow>)
    requires
        policies_unique(s),
        s.len() > 0,
    ensures
        policies_unique(s.drop_first()),
{
    let d = s.drop_first();
    assert forall|a: int, b: int|
        #![trigger d[a], d[b]]
        0 <= a < b < d.len() implies !policy_key_matches(d[a], d[b].app_id@, d[b].permission) by {
        assert(!policy_key_matches(s[a + 1], s[b + 1].app_id@, s[b + 1].permission));
    }
}

/// A table with no row for the key counts zero rows for it.
proof fn lemma_count_key_zero(s: Seq<PolicyRow>, app: Seq<char>, p: PermissionType)
    requires
        forall|j: int| 0 <= j < s.len() ==> !policy_key_matches(#[trigger] s[j], app, p),
    ensures
        count_key(s, app, p) == 0,
    decreases s.len(),
{
    if s.len() > 0 {
        lemma_count_key_zero(s.drop_first(), app, p);
    }
}

/// An upsert writes its row and touches nothing else: every row of the new
/// table is either the written row or one of the old rows.
pub proof fn lemma_upsert_policy_membership(s: Seq<PolicyRow>, row: PolicyRow)
    ensures
        forall|i: int|
            0 <= i < upsert_policy(s, row).len() ==> (#[trigger] upsert_policy(s, row)[i] == row
                || exists|j: int| 0 <= j < s.len() && s[j] == upsert_policy(s, row)[i]),
    decreases s.len(),
{
    let u = upsert_policy(s, row);
    if s.len() == 0 {
    } else if policy_key_matches(s[0], row.app_id@, row.permission) {
        assert forall|i: int|
            0 <= i < u.len() implies (u[i] == row || exists|j: int|
                0 <= j < s.len() && s[j] == #[trigger] u[i]) by {
            if i > 0 {
                assert(s[i] == u[i]);
            }
        }
    } else {
        lemma_upsert_policy_membership(s.drop_first(), row);
        let ur = upsert_policy(s.drop_first(), row);
        assert forall|i: int|
            0 <= i < u.len() implies (u[i] == row || exists|j: int|
                0 <= j < s.len() && s[j] == #[trigger] u[i]) by {
            if i == 0 {
                assert(s[0] == u[0]);
            } else {
                assert(u[i] == ur[i - 1]);
                if ur[i - 1] != row {
                    let j = choose|j: int|
                        0 <= j < s.drop_first().len() && s.drop_first()[j] == ur[i - 1];
                    assert(s[j + 1] == u[i]);
                }
            }
        }
    }
}

/// The uniqueness constraint survives an upsert: writing a decision never
/// duplicates a key.
pub proof fn lemma_upsert_policy_unique(s: Seq<PolicyRow>, row: PolicyRow)
    requires
        policies_unique(s),
    ensures
        policies_unique(upsert_policy(s, row)),
    decreases s.len(),
{
    let u = upsert_policy(s, row);
    if s.len() == 0 {
    } else if policy_key_matches(s[0], row.app_id@, row.permission) {
        assert forall|a: int, b: int|
            #![trigger u[a], u[b]]
            0 <= a < b < u.len() implies !policy_key_matches(u[a], u[b].app_id@, u[b].permission) by {
            assert(u[b] == s[b]);
            if a == 0 {
                assert(!policy_key_matches(s[0], s[b].app_id@, s[b].permission));
                if policy_key_matches(row, s[b].app_id@, s[b].permission) {
                    crate::types::lemma_perm_eq_sym(&s[0].permission, &row.permission);
                    crate::types::lemma_perm_eq_trans(
                        &s[0].permission,
                        &row.permission,
                        &s[b].permission,
                    );
                }
            } else {
                assert(u[a] == s[a]);
                assert(!policy_key_matches(s[a], s[b].app_id@, s[b].permission));
            }
        }
    } else {
        lemma_unique_drop_first(s);
        lemma_upsert_policy_unique(s.drop_first(), row);
        lemma_upsert_policy_membership(s.drop_first(), row);
        let ur = upsert_policy(s.drop_first(), row);
        assert forall|a: int, b: int|
            #![trigger u[a], u[b]]
            0 <= a < b < u.len() implies !policy_key_matches(u[a], u[b].app_id@, u[b].permission) by {
            if a == 0 {
                assert(u[b] == ur[b - 1]);
                if ur[b - 1] == row {
                    assert(!policy_key_matches(s[0], row.app_id@, row.permission));
                } else {
                    let j = choose|j: int|
                        0 <= j < s.drop_first().len() && s.drop_first()[j] == ur[b - 1];
                    assert(!policy_key_matches(s[0], s[j + 1].app_id@, s[j + 1].permission));
                }
            } else {
                assert(u[a] == ur[a - 1] && u[b] == ur[b - 1]);
                assert(!policy_key_matches(ur[a - 1], ur[b - 1].app_id@, ur[b - 1].permission));
            }
        }
    }
}

/// Reading back the key just written finds exactly the written row.
pub proof fn lemma_lookup_upsert_same(s: Seq<PolicyRow>, row: PolicyRow)
    ensures
        lookup_policy(upsert_policy(s, row), row.app_id@, row.permission) == Option::Some(row),
    decreases s.len(),
{
    crate::types::lemma_perm_eq_refl(&row.permission);
    if s.len() == 0 {
    } else if policy_key_matches(s[0], row.app_id@, row.permission) {
        let u = upsert_policy(s, row);
        assert(u[0] == row);
    } else {
        lemma_lookup_upsert_same(s.drop_first(), row);
        let u = upsert_policy(s, row);
        assert(u[0] == s[0]);
        assert(u.drop_first() =~= upsert_policy(s.drop_first(), row));
    }
}

/// Writing one key leaves every other key's lookup unchanged: distinct keys
/// do not interfere.
pub proof fn lemma_lookup_upsert_other(
    s: Seq<PolicyRow>,
    row: PolicyRow,
    app: Seq<char>,
    p: PermissionType,
)
    requires
        !policy_key_matches(row, app, p),
    ensures
        lookup_policy(upsert_policy(s, row), app, p) == lookup_policy(s, app, p),
    decreases s.len(),
{
    if s.len() == 0 {
        let u = upsert_policy(s, row);
        assert(u.drop_first() =~= Seq::<PolicyRow>::empty());
        assert(lookup_policy(Seq::<PolicyRow>::empty(), app, p) is None);
    } else if policy_key_matches(s[0], row.app_id@, row.permission) {
        let u = upsert_policy(s, row);
        assert(u[0] == row);
        assert(u.drop_first() =~= s.drop_first());
        if policy_key_matches(s[0], app, p) {
            crate::types::lemma_perm_eq_sym(&s[0].permission, &row.permission);
            crate::types::lemma_perm_eq_sym(&s[0].permission, &p);
            crate::types::lemma_perm_eq_trans(&row.permission, &s[0].permission, &p);
            assert(false);
        }
    } else {
        lemma_lookup_upsert_other(s.drop_first(), row, app, p);
        let u = upsert_policy(s, row);
        assert(u[0] == s[0]);
        assert(u.drop_first() =~= upsert_policy(s.drop_first(), row));
    }
}

/// After an upsert the written key owns exactly one row.
pub proof fn lemma_upsert_count_one(s: Seq<PolicyRow>, row: PolicyRow)
    requires
        policies_unique(s),
    ensures
        count_key(upsert_policy(s, row), row.app_id@, row.permission) == 1,
    decreases s.len(),
{
    crate::types::lemma_perm_eq_refl(&row.permission);
    let u = upsert_policy(s, row);
    if s.len() == 0 {
        assert(u.drop_first() =~= Seq::<PolicyRow>::empty());
        assert(count_key(Seq::<PolicyRow>::empty(), row.app_id@, row.permission) == 0);
    } else if policy_key_matches(s[0], row.app_id@, row.permission) {
        assert(u[0] == row);
        assert(u.drop_first() =~= s.drop_first());
        assert forall|j: int|
            0 <= j < s.drop_first().len() implies !policy_key_matches(
            #[trigger] s.drop_first()[j],
            row.app_id@,
            row.permission,
        ) by {
            assert(!policy_key_matches(s[0], s[j + 1].app_id@, s[j + 1].permission));
            if policy_key_matches(s[j + 1], row.app_id@, row.permission) {
                crate::types::lemma_perm_eq_sym(&s[j + 1].permission, &row.permission);
                crate::types::lemma_perm_eq_sym(&s[0].permission, &row.permission);
                crate::types::lemma_perm_eq_trans(
                    &s[0].permission,
                    &row.permission,
                    &s[j + 1].permission,
                );
            }
        }
        lemma_count_key_zero(s.drop_first(), row.app_id@, row.permission);
    } else {
        lemma_unique_drop_first(s);
        lemma_upsert_count_one(s.drop_first(), row);
        assert(u[0] == s[0]);
        assert(u.drop_first() =~= upsert_policy(s.drop_first(), row));
    }
}

/// A `None` lookup means no row of the key stands anywhere in the table.
proof fn lemma_lookup_none_no_match(s: Seq<PolicyRow>, app: Seq<char>, p: PermissionType)
    requires
        lookup_policy(s, app, p) is None,
    ensures
        forall|j: int| 0 <= j < s.len() ==> !policy_key_matches(#[trigger] s[j], app, p),
    decreases s.len(),
{
    if s.len() > 0 {
        lemma_lookup_none_no_match(s.drop_first(), app, p);
        assert forall|j: int| 0 <= j < s.len() implies !policy_key_matches(
            #[trigger] s[j],
            app,
            p,
        ) by {
            if j > 0 {
                assert(!policy_key_matches(s.drop_first()[j - 1], app, p));
            }
        }
    }
}

/// What a lookup returns is a row of the table, and one of the key.
proof fn lemma_lookup_some_props(s: Seq<PolicyRow>, app: Seq<char>, p: PermissionType, r: PolicyRow)
    requires
        lookup_policy(s, app, p) == Option::Some(r),
    ensures
        s.contains(r),
        policy_key_matches(r, app, p),
    decreases s.len(),
{
    if s.len() > 0 {
        if policy_key_matches(s[0], app, p) {
            assert(s[0] == r);
        } else {
            lemma_lookup_some_props(s.drop_first(), app, p, r);
            let j = choose|j: int| 0 <= j < s.drop_first().len() && s.drop_first()[j] == r;
            assert(s[j + 1] == r);
        }
    }
}

/// With unique keys, a lookup finds whichever row of the key stands in the
/// table, wherever it stands.
proof fn lemma_lookup_by_membership(
    s: Seq<PolicyRow>,
    app: Seq<char>,
    p: PermissionType,
    r: PolicyRow,
)
    requires
        policies_unique(s),
        s.contains(r),
        policy_key_matches(r, app, p),
    ensures
        lookup_policy(s, app, p) == Option::Some(r),
{
    let j = choose|j: int| 0 <= j < s.len() && s[j] == r;
    assert forall|i: int| 0 <= i < j implies !policy_key_matches(#[trigger] s[i], app, p) by {
        if policy_key_matches(s[i], app, p) {
            assert(!policy_key_matches(s[i], s[j].app_id@, s[j].permission));
            crate::types::lemma_perm_eq_sym(&s[j].permission, &p);
            crate::types::lemma_perm_eq_trans(&s[i].permission, &p, &s[j].permission);
        }
    }
    lemma_lookup_policy_found(s, app, p, j);
}

/// The sweep keeps every row that it does not remove.
proof fn lemma_sweep_keeps_unswept(s: Seq<PolicyRow>, now: i64, i: int)
    requires
        0 <= i < s.len(),
        !row_swept(s[i], now),
    ensures
        sweep_expired(s, now).contains(s[i]),
    decreases s.len(),
{
    let f = sweep_expired(s, now);
    let rest = sweep_expired(s.drop_last(), now);
    if i == s.len() - 1 {
        assert(f[f.len() - 1] == s[i]);
    } else {
        lemma_sweep_keeps_unswept(s.drop_last(), now, i);
        let j = choose|j: int| 0 <= j < rest.len() && rest[j] == s[i];
        if row_swept(s.last(), now) {
            assert(f[j] == s[i]);
        } else {
            assert(f[j] == s[i]);
        }
    }
}

/// Every row the sweep keeps was not due for removal.
proof fn lemma_sweep_results_unswept(s: Seq<PolicyRow>, now: i64)
    ensures
        forall|i: int|
            0 <= i < sweep_expired(s, now).len() ==> !row_swept(
                #[trigger] sweep_expired(s, now)[i],
                now,
            ),
    decreases s.len(),
{
    if s.len() > 0 {
        lemma_sweep_results_unswept(s.drop_last(), now);
        let f = sweep_expired(s, now);
        let rest = sweep_expired(s.drop_last(), now);
        assert forall|i: int| 0 <= i < f.len() implies !row_swept(#[trigger] f[i], now) by {
            if !row_swept(s.last(), now) && i == f.len() - 1 {
            } else {
                assert(f[i] == rest[i]);
            }
        }
    }
}

/// The expiry sweep is invisible to reads made at the same instant: it
/// removes only rows that a lookup at `now` already treats as absent, and it
/// keeps everything else, so what any key reads is the same before and after
/// the sweep.
pub proof fn lemma_sweep_preserves_reads(
    s: Seq<PolicyRow>,
    now: i64,
    app: Seq<char>,
    p: PermissionType,
)
    requires
        policies_unique(s),
    ensures
        spec_get_policy(sweep_expired(s, now), app, p, now) == spec_get_policy(s, app, p, now),
{
    let f = sweep_expired(s, now);
    lemma_sweep_expired_unique(s, now);
    match lookup_policy(s, app, p) {
        Option::None => {
            lemma_lookup_none_no_match(s, app, p);
            assert forall|i: int| 0 <= i < f.len() implies !policy_key_matches(
                #[trigger] f[i],
                app,
                p,
            ) by {
                let j = choose|j: int| 0 <= j < s.len() && s[j] == f[i];
                assert(!policy_key_matches(s[j], app, p));
            }
            lemma_lookup_policy_absent(f, app, p);
        },
        Option::Some(r) => {
            lemma_lookup_some_props(s, app, p, r);
            if row_swept(r, now) {
                // The row is gone from the swept table, and a read of the
                // original already saw it as expired.
                lemma_sweep_results_unswept(s, now);
                assert forall|i: int| 0 <= i < f.len() implies !policy_key_matches(
                    #[trigger] f[i],
                    app,
                    p,
                ) by {
                    if policy_key_matches(f[i], app, p) {
                        let j = choose|j: int| 0 <= j < s.len() && s[j] == f[i];
                        lemma_lookup_by_membership(s, app, p, f[i]);
                    }
                }
                lemma_lookup_policy_absent(f, app, p);
            } else {
                let j = choose|j: int| 0 <= j < s.len() && s[j] == r;
                lemma_sweep_keeps_unswept(s, now, j);
                lemma_lookup_by_membership(f, app, p, r);
            }
        },
    }
}

/// Round trip of a never-expiring decision: storing `AllowAlways` or
/// `DenyAlways` for a key and reading the same key back, at any time
/// whatsoever, returns exactly the stored decision.
pub proof fn lemma_always_round_trip(
    s: Seq<PolicyRow>,
    app: AppId,
    p: PermissionType,
    d: PromptDecision,
    now: i64,
    later: i64,
)
    requires
        d == PromptDecision::AllowAlways || d == PromptDecision::DenyAlways,
    ensures
        spec_get_policy(
            upsert_policy(s, stored_row(app, p, d, now)),
            app.primary@,
            p,
            later,
        ) == Option::Some(d),
{
    let row = stored_row(app, p, d, now);
    lemma_lookup_upsert_same(s, row);
}

/// Round trip of a time-bounded grant, with the expiry boundary made
/// explicit: a decision stored as `AllowDuration(d)` at `now` expires at
/// `now + d` (saturating), reads back as long as the reading time lies
/// strictly before that expiry, and is gone from reads at the expiry time
/// itself and ever after.
pub proof fn lemma_duration_round_trip(
    s: Seq<PolicyRow>,
    app: AppId,
    p: PermissionType,
    secs: u64,
    now: i64,
    later: i64,
)
    ensures
        spec_get_policy(
            upsert_policy(s, stored_row(app, p, PromptDecision::AllowDuration(secs), now)),
            app.primary@,
            p,
            later,
        ) == if valid_at(decision_expiry(PromptDecision::AllowDuration(secs), now), later) {
            Option::Some(PromptDecision::AllowDuration(secs))
        } else {
            Option::<PromptDecision>::None
        },
{
    let row = stored_row(app, p, PromptDecision::AllowDuration(secs), now);
    lemma_lookup_upsert_same(s, row);
}

/// Storing decisions for two distinct keys, in either order one after the
/// other, leaves each key holding exactly its own row: the writes do not
/// interfere.
pub proof fn lemma_distinct_keys_independent(s: Seq<PolicyRow>, row1: PolicyRow, row2: PolicyRow)
    requires
        !policy_key_matches(row2, row1.app_id@, row1.permission),
    ensures
        lookup_policy(upsert_policy(upsert_policy(s, row1), row2), row1.app_id@, row1.permission)
            == Option::Some(row1),
        lookup_policy(upsert_policy(upsert_policy(s, row1), row2), row2.app_id@, row2.permission)
            == Option::Some(row2),
{
    lemma_lookup_upsert_same(s, row1);
    lemma_lookup_upsert_other(upsert_policy(s, row1), row2, row1.app_id@, row1.permission);
    lemma_lookup_upsert_same(upsert_policy(s, row1), row2);
}

/// Storing two decisions for the same key one after the other leaves exactly
/// one row for that key, and its content is the decision written last: the
/// last writer wins and no row is lost.
pub proof fn lemma_same_key_last_writer_wins(s: Seq<PolicyRow>, row1: PolicyRow, row2: PolicyRow)
    requires
        policies_unique(s),
    ensures
        lookup_policy(upsert_policy(upsert_policy(s, row1), row2), row2.app_id@, row2.permission)
            == Option::Some(row2),
        count_key(upsert_policy(upsert_policy(s, row1), row2), row2.app_id@, row2.permission) == 1,
{
    lemma_lookup_upsert_same(upsert_policy(s, row1), row2);
    lemma_upsert_policy_unique(s, row1);
    lemma_upsert_count_one(upsert_policy(s, row1), row2);
}

/// Replacing a row by one with the same key keeps the keys unique.
proof fn lemma_unique_after_update(s: Seq<PolicyRow>, row: PolicyRow, i: int)
    requires
        policies_unique(s),
        0 <= i < s.len(),
        policy_key_matches(s[i], row.app_id@, row.permission),
    ensures
        policies_unique(s.update(i, row)),
{
    let u = s.update(i, row);
    assert forall|a: int, b: int|
        #![trigger u[a], u[b]]
        0 <= a < b < u.len() implies !policy_key_matches(u[a], u[b].app_id@, u[b].permission) by {
        crate::types::lemma_perm_eq_sym(&s[i].permission, &row.permission);
        if a == i {
            assert(!policy_key_matches(s[a], s[b].app_id@, s[b].permission));
            if policy_key_matches(u[a], u[b].app_id@, u[b].permission) {
                crate::types::lemma_perm_eq_trans(
                    &s[i].permission,
                    &row.permission,
                    &s[b].permission,
                );
            }
        } else if b == i {
            assert(!policy_key_matches(s[a], s[b].app_id@, s[b].permission));
            if policy_key_matches(u[a], u[b].app_id@, u[b].permission) {
                crate::types::lemma_perm_eq_trans(
                    &s[a].permission,
                    &row.permission,
                    &s[i].permission,
                );
            }
        } else {
            assert(!policy_key_matches(s[a], s[b].app_id@, s[b].permission));
        }
    }
}

/// Appending a row whose key is new keeps the keys unique.
proof fn lemma_unique_after_push(s: Seq<PolicyRow>, row: PolicyRow)
    requires
        policies_unique(s),
        forall|j: int| 0 <= j < s.len() ==> !policy_key_matches(#[trigger] s[j], row.app_id@, row.permission),
    ensures
        policies_unique(s.push(row)),
{
    let u = s.push(row);
    assert forall|a: int, b: int|
        #![trigger u[a], u[b]]
        0 <= a < b < u.len() implies !policy_key_matches(u[a], u[b].app_id@, u[b].permission) by {
        if b < s.len() {
            assert(!policy_key_matches(s[a], s[b].app_id@, s[b].permission));
        } else {
            assert(!policy_key_matches(s[a], row.app_id@, row.permission));
        }
    }
}

} // verus!
