//! The contributor store, the append-only credit-event log and the table of
//! evaluations awaiting review, held together with the policy they obey.
//!
//! Every mutation passes through `Ledger`, whose well-formedness carries the
//! invariants of the data model: each event obeys the clamped credit rule,
//! no credit is negative, a (user, owner, repo) key names at most one
//! contributor, and each auto-blacklist event follows the downward crossing
//! that caused it.

use vstd::prelude::*;
use vstd::string::*;
use crate::evaluation::{EvaluationStatus, status_step, AUTO_APPLY_THRESHOLD};
use crate::policy::{
    RepoConfig, EventType, QualityLevel, clamped, delta_of, calculate_delta_with_config,
};
use crate::text::{str_eq, decimal_string, decimal_of};

verus! {

/// Kind of a credit event in the audit log.
#[derive(Debug, Clone, Copy, PartialEq, Eq, Structural)]
pub enum CreditEventType {
    PrOpened,
    Comment,
    PrMerged,
    ReviewSubmitted,
    EvaluationApproved,
    EvaluationOverridden,
    ManualAdjustment,
    BlacklistAdded,
    BlacklistRemoved,
    AutoBlacklist,
}

pub open spec fn event_type_name(t: CreditEventType) -> Seq<char> {
    match t {
        CreditEventType::PrOpened => "pr_opened"@,
        CreditEventType::Comment => "comment"@,
        CreditEventType::PrMerged => "pr_merged"@,
        CreditEventType::ReviewSubmitted => "review_submitted"@,
        CreditEventType::EvaluationApproved => "evaluation_approved"@,
        CreditEventType::EvaluationOverridden => "evaluation_overridden"@,
        CreditEventType::ManualAdjustment => "manual_adjustment"@,
        CreditEventType::BlacklistAdded => "blacklist_added"@,
        CreditEventType::BlacklistRemoved => "blacklist_removed"@,
        CreditEventType::AutoBlacklist => "auto_blacklist"@,
    }
}

pub open spec fn credit_event_type_of(t: EventType) -> CreditEventType {
    match t {
        EventType::PrOpened => CreditEventType::PrOpened,
        EventType::Comment => CreditEventType::Comment,
        EventType::PrMerged => CreditEventType::PrMerged,
        EventType::ReviewSubmitted => CreditEventType::ReviewSubmitted,
    }
}

impl CreditEventType {
    /// The stored name of the kind.
    pub fn as_string(&self) -> (r: String)
        ensures
            r@ == event_type_name(*self),
    {
        match self {
            CreditEventType::PrOpened => String::from_str("pr_opened"),
            CreditEventType::Comment => String::from_str("comment"),
            CreditEventType::PrMerged => String::from_str("pr_merged"),
            CreditEventType::ReviewSubmitted => String::from_str("review_submitted"),
            CreditEventType::EvaluationApproved => String::from_str("evaluation_approved"),
            CreditEventType::EvaluationOverridden => String::from_str("evaluation_overridden"),
            CreditEventType::ManualAdjustment => String::from_str("manual_adjustment"),
            CreditEventType::BlacklistAdded => String::from_str("blacklist_added"),
            CreditEventType::BlacklistRemoved => String::from_str("blacklist_removed"),
            CreditEventType::AutoBlacklist => String::from_str("auto_blacklist"),
        }
    }

    /// The kind under which a classified contribution event is logged.
    pub fn from_event_type(t: EventType) -> (r: CreditEventType)
        ensures
            r == credit_event_type_of(t),
    {
        match t {
            EventType::PrOpened => CreditEventType::PrOpened,
            EventType::Comment => CreditEventType::Comment,
            EventType::PrMerged => CreditEventType::PrMerged,
            EventType::ReviewSubmitted => CreditEventType::ReviewSubmitted,
        }
    }
}

/// How a classification is written in a pending evaluation.
pub open spec fn quality_label(q: QualityLevel) -> Seq<char> {
    match q {
        QualityLevel::Spam => "Spam"@,
        QualityLevel::Low => "Low"@,
        QualityLevel::Acceptable => "Acceptable"@,
        QualityLevel::High => "High"@,
    }
}

pub fn quality_label_string(q: QualityLevel) -> (r: String)
    ensures
        r@ == quality_label(q),
{
    match q {
        QualityLevel::Spam => String::from_str("Spam"),
        QualityLevel::Low => String::from_str("Low"),
        QualityLevel::Acceptable => String::from_str("Acceptable"),
        QualityLevel::High => String::from_str("High"),
    }
}

/// A contributor: one per (forge user, repository owner, repository name).
#[derive(Debug)]
pub struct Contributor {
    pub id: i64,
    pub github_user_id: i64,
    pub repo_owner: String,
    pub repo_name: String,
    pub credit_score: i32,
    pub role: Option<String>,
    pub is_blacklisted: bool,
    pub created_at: i64,
    pub updated_at: i64,
}

fn copy_opt_string(s: &Option<String>) -> (r: Option<String>)
    ensures
        r == *s,
{
    match s {
        Some(x) => Some(x.clone()),
        None => None,
    }
}

impl Contributor {
    /// An equal copy.
    pub fn snapshot(&self) -> (r: Contributor)
        ensures
            r == *self,
    {
        Contributor {
            id: self.id,
            github_user_id: self.github_user_id,
            repo_owner: self.repo_owner.clone(),
            repo_name: self.repo_name.clone(),
            credit_score: self.credit_score,
            role: copy_opt_string(&self.role),
            is_blacklisted: self.is_blacklisted,
            created_at: self.created_at,
            updated_at: self.updated_at,
        }
    }
}

/// One entry of the audit log.
#[derive(Debug)]
pub struct CreditEvent {
    pub id: i64,
    pub contributor_id: i64,
    pub event_type: CreditEventType,
    pub delta: i32,
    pub credit_before: i32,
    pub credit_after: i32,
    pub llm_evaluation: Option<String>,
    pub maintainer_override: Option<String>,
    pub created_at: i64,
}

/// A low-confidence classification awaiting a maintainer.
#[derive(Debug)]
pub struct PendingEvaluation {
    pub id: String,
    pub contributor_id: i64,
    pub repo_owner: String,
    pub repo_name: String,
    pub llm_classification: String,
    /// Confidence in basis points.
    pub confidence: u32,
    pub proposed_delta: i32,
    pub status: EvaluationStatus,
    pub maintainer_note: Option<String>,
    pub final_delta: Option<i32>,
    pub created_at: i64,
    pub updated_at: i64,
}

impl PendingEvaluation {
    /// An equal copy.
    pub fn snapshot(&self) -> (r: PendingEvaluation)
        ensures
            r == *self,
    {
        PendingEvaluation {
            id: self.id.clone(),
            contributor_id: self.contributor_id,
            repo_owner: self.repo_owner.clone(),
            repo_name: self.repo_name.clone(),
            llm_classification: self.llm_classification.clone(),
            confidence: self.confidence,
            proposed_delta: self.proposed_delta,
            status: self.status,
            maintainer_note: copy_opt_string(&self.maintainer_note),
            final_delta: self.final_delta,
            created_at: self.created_at,
            updated_at: self.updated_at,
        }
    }
}

/// A maintainer's decision on a pending evaluation.
#[derive(Debug)]
pub enum Decision {
    /// Accept the proposed delta.
    Approve { note: Option<String> },
    /// Replace it by `delta`, for `reason`.
    Override { delta: i32, reason: String },
}

/// The annotation logged with a decided evaluation.
pub open spec fn decision_blob(id: Seq<char>, classification: Seq<char>) -> Seq<char> {
    "{\"evaluation_id\": \""@ + id + "\", \"classification\": \""@ + classification + "\"}"@
}

/// Why a store operation did not take place.
#[derive(Debug, Clone, Copy, PartialEq, Eq, Structural)]
pub enum LedgerError {
    ContributorNotFound,
    EvaluationNotFound,
    NotPending,
    CreditOverflow,
    DuplicateEvaluation,
}

/// The contributor identified by `uid`, `owner` and `repo`.
pub open spec fn has_key(c: Contributor, uid: i64, owner: Seq<char>, repo: Seq<char>) -> bool {
    c.github_user_id == uid && c.repo_owner@ == owner && c.repo_name@ == repo
}

pub open spec fn same_key(a: Contributor, b: Contributor) -> bool {
    has_key(b, a.github_user_id, a.repo_owner@, a.repo_name@)
}

/// An event whose after-credit is `max(0, before + delta)`.
pub open spec fn obeys_credit_rule(e: CreditEvent) -> bool {
    e.credit_after == clamped(e.credit_before as int, e.delta as int)
}

/// The abstract content of a ledger.
pub struct LedgerView {
    pub config: RepoConfig,
    pub contributors: Seq<Contributor>,
    pub events: Seq<CreditEvent>,
    pub evaluations: Seq<PendingEvaluation>,
    pub next_id: int,
}

impl LedgerView {
    /// Event `k` is an auto-blacklist entry preceded, on the same contributor,
    /// by the event that took the credit from above the threshold to at or
    /// below it.
    pub open spec fn trip_recorded(self, k: int) -> bool {
        let t = self.config.blacklist_threshold;
        &&& 0 < k < self.events.len()
        &&& self.events[k - 1].contributor_id == self.events[k].contributor_id
        &&& self.events[k - 1].credit_before > t
        &&& self.events[k].credit_after <= t
    }

    pub open spec fn inv(self) -> bool {
        &&& self.config.starting_credit >= 0
        &&& 0 < self.next_id
        &&& forall|i: int| 0 <= i < self.contributors.len() ==> self.contributors[i].credit_score >= 0
        &&& forall|i: int, j: int|
            0 <= i < self.contributors.len() && 0 <= j < self.contributors.len() && i != j
                ==> !same_key(#[trigger] self.contributors[i], #[trigger] self.contributors[j])
        &&& forall|i: int|
            0 <= i < self.contributors.len() ==> 0 < #[trigger] self.contributors[i].id < self.next_id
        &&& forall|i: int, j: int|
            0 <= i < self.contributors.len() && 0 <= j < self.contributors.len() && i != j
                ==> #[trigger] self.contributors[i].id != #[trigger] self.contributors[j].id
        &&& forall|i: int, j: int|
            0 <= i < self.evaluations.len() && 0 <= j < self.evaluations.len() && i != j
                ==> (#[trigger] self.evaluations[i]).id@ != (#[trigger] self.evaluations[j]).id@
        &&& forall|k: int| 0 <= k < self.events.len() ==> obeys_credit_rule(#[trigger] self.events[k])
        &&& forall|k: int|
            0 <= k < self.events.len() && (#[trigger] self.events[k]).event_type
                == CreditEventType::AutoBlacklist ==> self.trip_recorded(k)
    }

    /// Some contributor carries the key.
    pub open spec fn key_present(self, uid: i64, owner: Seq<char>, repo: Seq<char>) -> bool {
        exists|i: int| 0 <= i < self.contributors.len() && has_key(self.contributors[i], uid, owner, repo)
    }

    /// The contributor with the key, if any.
    pub open spec fn lookup(self, uid: i64, owner: Seq<char>, repo: Seq<char>) -> Option<Contributor> {
        if self.key_present(uid, owner, repo) {
            Some(self.contributors[self.key_index(uid, owner, repo)])
        } else {
            None
        }
    }

    pub open spec fn key_index(self, uid: i64, owner: Seq<char>, repo: Seq<char>) -> int {
        choose|i: int| 0 <= i < self.contributors.len() && has_key(self.contributors[i], uid, owner, repo)
    }

    /// Some stored evaluation has the id.
    pub open spec fn evaluation_present(self, id: Seq<char>) -> bool {
        exists|i: int| 0 <= i < self.evaluations.len() && self.evaluations[i].id@ == id
    }

    pub open spec fn evaluation_index(self, id: Seq<char>) -> int {
        choose|i: int| 0 <= i < self.evaluations.len() && self.evaluations[i].id@ == id
    }

    /// The credit the contributor with the key has once looked up or created.
    pub open spec fn arrival_credit(self, uid: i64, owner: Seq<char>, repo: Seq<char>) -> i32 {
        if self.key_present(uid, owner, repo) {
            self.lookup(uid, owner, repo)->0.credit_score
        } else {
            self.config.starting_credit
        }
    }

    /// Some contributor has the internal id.
    pub open spec fn id_present(self, id: i64) -> bool {
        exists|i: int| 0 <= i < self.contributors.len() && self.contributors[i].id == id
    }

    pub open spec fn id_index(self, id: i64) -> int {
        choose|i: int| 0 <= i < self.contributors.len() && self.contributors[i].id == id
    }

    /// The contributor with the internal id, if any.
    pub open spec fn by_id(self, id: i64) -> Option<Contributor> {
        if self.id_present(id) {
            Some(self.contributors[self.id_index(id)])
        } else {
            None
        }
    }

    /// The ledger after the contributor at `i` is replaced by `c`.
    pub open spec fn with_contributor(self, i: int, c: Contributor) -> LedgerView {
        LedgerView { contributors: self.contributors.update(i, c), ..self }
    }

    /// How a later state relates to an earlier one: the policy stays, the log
    /// only grows, contributors are only added and their stamps never go back, and each stored evaluation
    /// keeps its status or leaves `Pending` for `Approved` or `Overridden`;
    /// no evaluation appears already auto-applied.
    pub open spec fn evolves_to(self, later: LedgerView) -> bool {
        &&& later.config == self.config
        &&& self.next_id <= later.next_id
        &&& self.contributors.len() <= later.contributors.len()
        &&& self.events.len() <= later.events.len()
        &&& later.events.subrange(0, self.events.len() as int) == self.events
        &&& self.evaluations.len() <= later.evaluations.len()
        &&& forall|i: int| 0 <= i < self.contributors.len() ==> same_key(
            #[trigger] self.contributors[i], later.contributors[i]) && self.contributors[i].id
            == later.contributors[i].id && self.contributors[i].updated_at
            <= later.contributors[i].updated_at
        &&& forall|i: int|
            0 <= i < self.evaluations.len() ==> status_step(
                #[trigger] self.evaluations[i].status,
                later.evaluations[i].status,
            )
        &&& forall|i: int|
            self.evaluations.len() <= i < later.evaluations.len() ==> (
            #[trigger] later.evaluations[i]).status != EvaluationStatus::AutoApplied
    }
}

/// The stamp of a write at `now` on a row last stamped `previous`: stamps
/// never go back.
pub open spec fn later_of(previous: i64, now: i64) -> i64 {
    if now >= previous { now } else { previous }
}

pub fn later_stamp(previous: i64, now: i64) -> (r: i64)
    ensures
        r == later_of(previous, now),
{
    if now >= previous { now } else { previous }
}

/// A downward crossing of the blacklist threshold.
pub open spec fn trips(before: int, after: int, threshold: int) -> bool {
    after <= threshold && before > threshold
}

/// The id of a pending evaluation: `eval-{user}-{repo}-{epoch seconds}`.
pub open spec fn evaluation_id_text(uid: i64, repo: Seq<char>, now: i64) -> Seq<char> {
    "eval-"@ + decimal_of(uid as int) + "-"@ + repo + "-"@ + decimal_of(now as int)
}

/// The note on an auto-blacklist event.
pub open spec fn trip_note(after: i32) -> Seq<char> {
    "Auto-blacklisted due to credit dropping to "@ + decimal_of(after as int)
}

/// What the outcome applier did with a classification.
#[derive(Debug)]
pub enum CommitOutcome {
    /// Applied at once: the credit moved from `credit_before` to `credit_after`.
    Applied { credit_before: i32, credit_after: i32, auto_blacklisted: bool },
    /// Stored for review under `evaluation_id`.
    Pending { evaluation_id: String },
}

/// `a` may be listed before `b`: more credit, or as much credit and updated
/// no earlier.
pub open spec fn ranks_before(a: Contributor, b: Contributor) -> bool {
    a.credit_score > b.credit_score || (a.credit_score == b.credit_score && a.updated_at >= b.updated_at)
}

/// Listed by credit, highest first, then by last update, latest first.
pub open spec fn is_ranked(s: Seq<Contributor>) -> bool {
    forall|i: int, j: int| 0 <= i < j < s.len() ==> ranks_before(#[trigger] s[i], #[trigger] s[j])
}

/// The contributors of repository `owner`/`repo`, in store order.
pub open spec fn of_repo(s: Seq<Contributor>, owner: Seq<char>, repo: Seq<char>) -> Seq<Contributor> {
    s.filter(|c: Contributor| c.repo_owner@ == owner && c.repo_name@ == repo)
}

/// The state of one deployment: its policy and its three tables.
pub struct Ledger {
    config: RepoConfig,
    contributors: Vec<Contributor>,
    events: Vec<CreditEvent>,
    evaluations: Vec<PendingEvaluation>,
    next_id: i64,
}

impl View for Ledger {
    type V = LedgerView;

    closed spec fn view(&self) -> LedgerView {
        LedgerView {
            config: self.config,
            contributors: self.contributors@,
            events: self.events@,
            evaluations: self.evaluations@,
            next_id: self.next_id as int,
        }
    }
}

impl Ledger {
    pub open spec fn wf(&self) -> bool {
        self@.inv()
    }

    /// An empty ledger under `config`.
    pub fn new(config: RepoConfig) -> (r: Ledger)
        requires
            config.starting_credit >= 0,
        ensures
            r.wf(),
            r@.config == config,
            r@.contributors.len() == 0,
            r@.events.len() == 0,
            r@.evaluations.len() == 0,
            r@.next_id == 1,
    {
        Ledger {
            config,
            contributors: Vec::new(),
            events: Vec::new(),
            evaluations: Vec::new(),
            next_id: 1,
        }
    }

    /// The policy the ledger obeys.
    pub fn config(&self) -> (r: RepoConfig)
        ensures
            r == self@.config,
    {
        self.config
    }

    /// Whether fresh ids remain for any one operation (it takes at most two).
    pub fn has_room(&self) -> (r: bool)
        ensures
            r == (self@.next_id < i64::MAX - 3),
    {
        self.next_id < i64::MAX - 3
    }

    fn key_position(&self, uid: i64, owner: &str, repo: &str) -> (r: Option<usize>)
        requires
            self.wf(),
        ensures
            match r {
                Some(i) => i < self@.contributors.len() && has_key(
                    self@.contributors[i as int],
                    uid,
                    owner@,
                    repo@,
                ) && self@.key_index(uid, owner@, repo@) == i,
                None => !self@.key_present(uid, owner@, repo@),
            },
    {
        let n = self.contributors.len();
        let mut i: usize = 0;
        while i < n
            invariant
                self.wf(),
                n == self.contributors@.len(),
                i <= n,
                forall|k: int| 0 <= k < i ==> !has_key(#[trigger] self.contributors@[k], uid, owner@, repo@),
            decreases n - i,
        {
            let c = &self.contributors[i];
            if c.github_user_id == uid && str_eq(c.repo_owner.as_str(), owner) && str_eq(
                c.repo_name.as_str(),
                repo,
            ) {
                proof {
                    assert(has_key(self@.contributors[i as int], uid, owner@, repo@));
                    assert(self@.key_present(uid, owner@, repo@));
                    let j = self@.key_index(uid, owner@, repo@);
                    assert(0 <= j < self@.contributors.len());
                    assert(has_key(self@.contributors[j], uid, owner@, repo@));
                    if j != i {
                        assert(same_key(self@.contributors[i as int], self@.contributors[j]));

                    }
                }
                return Some(i);
            }
            i = i + 1;
        }
        None
    }

    /// The contributor with the key, if any.
    pub fn lookup(&self, uid: i64, owner: &str, repo: &str) -> (r: Option<Contributor>)
        requires
            self.wf(),
        ensures
            r == self@.lookup(uid, owner@, repo@),
    {
        match self.key_position(uid, owner, repo) {
            Some(i) => Some(self.contributors[i].snapshot()),
            None => None,
        }
    }

    fn id_position(&self, id: i64) -> (r: Option<usize>)
        requires
            self.wf(),
        ensures
            match r {
                Some(i) => i < self@.contributors.len() && self@.contributors[i as int].id == id
                    && self@.id_index(id) == i,
                None => !self@.id_present(id),
            },
    {
        let n = self.contributors.len();
        let mut i: usize = 0;
        while i < n
            invariant
                self.wf(),
                n == self.contributors@.len(),
                i <= n,
                forall|k: int| 0 <= k < i ==> (#[trigger] self.contributors@[k]).id != id,
            decreases n - i,
        {
            if self.contributors[i].id == id {
                proof {
                    assert(self@.contributors[i as int].id == id);
                    assert(self@.id_present(id));
                    let j = self@.id_index(id);
                    if j != i {
                        assert(self@.contributors[j].id == id);
                    }
                }
                return Some(i);
            }
            i = i + 1;
        }
        None
    }

    /// The contributor with the internal id, if any.
    pub fn get_by_id(&self, id: i64) -> (r: Option<Contributor>)
        requires
            self.wf(),
        ensures
            r == self@.by_id(id),
    {
        match self.id_position(id) {
            Some(i) => Some(self.contributors[i].snapshot()),
            None => None,
        }
    }

    /// The contributor with the key; a new one with the starting credit when
    /// there is none.
    pub fn lookup_or_create(&mut self, uid: i64, owner: &str, repo: &str, now: i64) -> (r:
        Contributor)
        requires
            old(self).wf(),
            old(self)@.next_id < i64::MAX - 1,
        ensures
            final(self).wf(),
            old(self)@.evolves_to(final(self)@),
            final(self)@.lookup(uid, owner@, repo@) == Some(r),
            old(self)@.key_present(uid, owner@, repo@) ==> final(self)@ == old(self)@ && Some(r)
                == old(self)@.lookup(uid, owner@, repo@),
            !old(self)@.key_present(uid, owner@, repo@) ==> {
                &&& r.id == old(self)@.next_id
                &&& has_key(r, uid, owner@, repo@)
                &&& r.credit_score == old(self)@.config.starting_credit
                &&& r.role is None
                &&& !r.is_blacklisted
                &&& r.created_at == now
                &&& r.updated_at == now
                &&& final(self)@ == (LedgerView {
                    contributors: old(self)@.contributors.push(r),
                    next_id: old(self)@.next_id + 1,
                    ..old(self)@
                })
            },
    {
        if let Some(i) = self.key_position(uid, owner, repo) {
            proof {
                assert(self@.events.subrange(0, self@.events.len() as int) =~= self@.events);
                assert(self@.key_present(uid, owner@, repo@));
            }
            return self.contributors[i].snapshot();
        }
        let c = Contributor {
            id: self.next_id,
            github_user_id: uid,
            repo_owner: String::from_str(owner),
            repo_name: String::from_str(repo),
            credit_score: self.config.starting_credit,
            role: None,
            is_blacklisted: false,
            created_at: now,
            updated_at: now,
        };
        let ghost old_view = self@;
        let r = c.snapshot();
        self.contributors.push(c);
        self.next_id = self.next_id + 1;
        proof {
            let v = self@;
            let n = old_view.contributors.len() as int;
            assert(v.contributors[n] == r);
            assert forall|i: int, j: int|
                0 <= i < v.contributors.len() && 0 <= j < v.contributors.len() && i != j
                    implies !same_key(#[trigger] v.contributors[i], #[trigger] v.contributors[j]) by {
                if i == n {
                    assert(!has_key(old_view.contributors[j], uid, owner@, repo@));
                } else if j == n {
                    assert(!has_key(old_view.contributors[i], uid, owner@, repo@));
                } else {
                    assert(v.contributors[i] == old_view.contributors[i]);
                }
            }
            assert(has_key(v.contributors[n], uid, owner@, repo@));
            assert(v.key_present(uid, owner@, repo@));
            let j = v.key_index(uid, owner@, repo@);
            if j != n {
                assert(same_key(v.contributors[n], v.contributors[j]));
            }
            assert(v.events.subrange(0, old_view.events.len() as int) =~= old_view.events);
        }
        r
    }

    /// Replacing a contributor by one with the same key and id and a
    /// non-negative credit keeps the invariants; stamped no earlier, it is an
    /// evolution.
    pub proof fn lemma_replace_keeps_inv(v: LedgerView, i: int, c: Contributor)
        requires
            v.inv(),
            0 <= i < v.contributors.len(),
            same_key(v.contributors[i], c),
            c.id == v.contributors[i].id,
            c.credit_score >= 0,
        ensures
            v.with_contributor(i, c).inv(),
            c.updated_at >= v.contributors[i].updated_at ==> v.evolves_to(v.with_contributor(i, c)),
    {
        let w = v.with_contributor(i, c);
        assert forall|a: int, b: int|
            0 <= a < w.contributors.len() && 0 <= b < w.contributors.len() && a != b
                implies !same_key(#[trigger] w.contributors[a], #[trigger] w.contributors[b]) by {
            assert(!same_key(v.contributors[a], v.contributors[b]));
        }
        assert forall|a: int, b: int|
            0 <= a < w.contributors.len() && 0 <= b < w.contributors.len() && a != b
                implies #[trigger] w.contributors[a].id != #[trigger] w.contributors[b].id by {
            assert(v.contributors[a].id != v.contributors[b].id);
        }
        assert forall|a: int| 0 <= a < w.contributors.len() implies 0 < #[trigger] w.contributors[a].id
            < w.next_id by {
            assert(0 < v.contributors[a].id);
        }
        assert(w.events.subrange(0, v.events.len() as int) =~= v.events);
    }

    fn replace_contributor(&mut self, i: usize, c: Contributor)
        requires
            old(self).wf(),
            i < old(self)@.contributors.len(),
            same_key(old(self)@.contributors[i as int], c),
            c.id == old(self)@.contributors[i as int].id,
            c.credit_score >= 0,
            c.updated_at >= old(self)@.contributors[i as int].updated_at,
        ensures
            final(self).wf(),
            final(self)@ == old(self)@.with_contributor(i as int, c),
            old(self)@.evolves_to(final(self)@),
    {
        proof {
            Self::lemma_replace_keeps_inv(self@, i as int, c);
        }
        self.contributors.set(i, c);
        proof {
            assert(self@.contributors =~= old(self)@.contributors.update(i as int, c));
        }
    }

    /// `c` with a new credit, stamped `now`.
    pub open spec fn with_credit(c: Contributor, score: i32, now: i64) -> Contributor {
        Contributor { credit_score: score, updated_at: later_of(c.updated_at, now), ..c }
    }

    pub open spec fn with_blacklisted(c: Contributor, flag: bool, now: i64) -> Contributor {
        Contributor { is_blacklisted: flag, updated_at: later_of(c.updated_at, now), ..c }
    }

    pub open spec fn with_role(c: Contributor, role: Option<String>, now: i64) -> Contributor {
        Contributor { role: role, updated_at: later_of(c.updated_at, now), ..c }
    }

    /// Set the credit of the contributor with internal id `id`.
    pub fn update_credit_score(&mut self, id: i64, new_score: i32, now: i64) -> (r: Result<(), LedgerError>)
        requires
            old(self).wf(),
            new_score >= 0,
        ensures
            final(self).wf(),
            old(self)@.evolves_to(final(self)@),
            r is Ok <==> old(self)@.id_present(id),
            r is Err ==> r == Err::<(), LedgerError>(LedgerError::ContributorNotFound) && final(self)@ == old(self)@,
            r is Ok ==> final(self)@ == old(self)@.with_contributor(
                old(self)@.id_index(id),
                Self::with_credit(old(self)@.contributors[old(self)@.id_index(id)], new_score, now),
            ),
    {
        match self.id_position(id) {
            None => {
                proof { assert(self@.events.subrange(0, self@.events.len() as int) =~= self@.events); }
                Err(LedgerError::ContributorNotFound)
            },
            Some(i) => {
                let mut c = self.contributors[i].snapshot();
                c.credit_score = new_score;
                c.updated_at = later_stamp(c.updated_at, now);
                self.replace_contributor(i, c);
                Ok(())
            },
        }
    }

    /// Set or clear the blacklist flag of the contributor with id `id`.
    pub fn set_blacklisted(&mut self, id: i64, flag: bool, now: i64) -> (r: Result<(), LedgerError>)
        requires
            old(self).wf(),
        ensures
            final(self).wf(),
            old(self)@.evolves_to(final(self)@),
            r is Ok <==> old(self)@.id_present(id),
            r is Err ==> r == Err::<(), LedgerError>(LedgerError::ContributorNotFound) && final(self)@ == old(self)@,
            r is Ok ==> final(self)@ == old(self)@.with_contributor(
                old(self)@.id_index(id),
                Self::with_blacklisted(old(self)@.contributors[old(self)@.id_index(id)], flag, now),
            ),
    {
        match self.id_position(id) {
            None => {
                proof { assert(self@.events.subrange(0, self@.events.len() as int) =~= self@.events); }
                Err(LedgerError::ContributorNotFound)
            },
            Some(i) => {
                let mut c = self.contributors[i].snapshot();
                c.is_blacklisted = flag;
                c.updated_at = later_stamp(c.updated_at, now);
                self.replace_contributor(i, c);
                Ok(())
            },
        }
    }

    /// Cache the last known role of the contributor with id `id`.
    pub fn update_role(&mut self, id: i64, role: Option<String>, now: i64) -> (r: Result<(), LedgerError>)
        requires
            old(self).wf(),
        ensures
            final(self).wf(),
            old(self)@.evolves_to(final(self)@),
            r is Ok <==> old(self)@.id_present(id),
            r is Err ==> r == Err::<(), LedgerError>(LedgerError::ContributorNotFound) && final(self)@ == old(self)@,
            r is Ok ==> final(self)@ == old(self)@.with_contributor(
                old(self)@.id_index(id),
                Self::with_role(old(self)@.contributors[old(self)@.id_index(id)], role, now),
            ),
    {
        match self.id_position(id) {
            None => {
                proof { assert(self@.events.subrange(0, self@.events.len() as int) =~= self@.events); }
                Err(LedgerError::ContributorNotFound)
            },
            Some(i) => {
                let mut c = self.contributors[i].snapshot();
                c.role = role;
                c.updated_at = later_stamp(c.updated_at, now);
                self.replace_contributor(i, c);
                Ok(())
            },
        }
    }

    /// Append an event to the log under a fresh id.
    fn push_event(&mut self, e: CreditEvent)
        requires
            old(self).wf(),
            obeys_credit_rule(e),
            e.id == old(self)@.next_id,
            old(self)@.next_id < i64::MAX - 1,
            e.event_type == CreditEventType::AutoBlacklist ==> {
                let v = old(self)@;
                let t = v.config.blacklist_threshold;
                &&& v.events.len() > 0
                &&& v.events.last().contributor_id == e.contributor_id
                &&& v.events.last().credit_before > t
                &&& e.credit_after <= t
            },
        ensures
            final(self).wf(),
            old(self)@.evolves_to(final(self)@),
            final(self)@ == (LedgerView {
                events: old(self)@.events.push(e),
                next_id: old(self)@.next_id + 1,
                ..old(self)@
            }),
    {
        let ghost v = self@;
        self.events.push(e);
        self.next_id = self.next_id + 1;
        proof {
            let w = self@;
            assert(w.events =~= v.events.push(e));
            assert(w.events.subrange(0, v.events.len() as int) =~= v.events);
            assert forall|k: int|
                0 <= k < w.events.len() && (#[trigger] w.events[k]).event_type
                    == CreditEventType::AutoBlacklist implies w.trip_recorded(k) by {
                if k < v.events.len() {
                    assert(v.trip_recorded(k));
                }
            }
            assert forall|a: int| 0 <= a < w.contributors.len() implies 0 < #[trigger] w.contributors[a].id
                < w.next_id by {
                assert(v.contributors[a].id < v.next_id);
            }
            assert forall|k: int| 0 <= k < w.events.len() implies obeys_credit_rule(#[trigger] w.events[k]) by {
                if k < v.events.len() {
                    assert(obeys_credit_rule(v.events[k]));
                }
            }
        }
    }

    /// The event that `apply_delta` appends.
    pub open spec fn logged_event(
        v: LedgerView,
        contributor_id: i64,
        kind: CreditEventType,
        delta: i32,
        before: i32,
        llm_evaluation: Option<String>,
        note: Option<String>,
        now: i64,
    ) -> CreditEvent {
        CreditEvent {
            id: v.next_id as i64,
            contributor_id,
            event_type: kind,
            delta,
            credit_before: before,
            credit_after: clamped(before as int, delta as int) as i32,
            llm_evaluation,
            maintainer_override: note,
            created_at: now,
        }
    }

    /// The ledger after `apply_delta` succeeded on the contributor at `i`.
    pub open spec fn after_delta(
        v: LedgerView,
        i: int,
        kind: CreditEventType,
        delta: i32,
        llm_evaluation: Option<String>,
        note: Option<String>,
        now: i64,
    ) -> LedgerView {
        let c = v.contributors[i];
        let after = clamped(c.credit_score as int, delta as int) as i32;
        LedgerView {
            contributors: v.contributors.update(i, Self::with_credit(c, after, now)),
            events: v.events.push(
                Self::logged_event(v, c.id, kind, delta, c.credit_score, llm_evaluation, note, now),
            ),
            next_id: v.next_id + 1,
            ..v
        }
    }

    /// Apply `delta` to the contributor with id `id` under the clamped rule,
    /// and log it as an event of kind `kind`. Returns the credit before and after.
    pub fn apply_delta(
        &mut self,
        id: i64,
        kind: CreditEventType,
        delta: i32,
        llm_evaluation: Option<String>,
        note: Option<String>,
        now: i64,
    ) -> (r: Result<(i32, i32), LedgerError>)
        requires
            old(self).wf(),
            old(self)@.next_id < i64::MAX - 1,
            kind != CreditEventType::AutoBlacklist,
        ensures
            final(self).wf(),
            old(self)@.evolves_to(final(self)@),
            !old(self)@.id_present(id) ==> r == Err::<(i32, i32), LedgerError>(LedgerError::ContributorNotFound)
                && final(self)@ == old(self)@,
            old(self)@.id_present(id) ==> {
                let i = old(self)@.id_index(id);
                let before = old(self)@.contributors[i].credit_score;
                if before + delta > i32::MAX {
                    r == Err::<(i32, i32), LedgerError>(LedgerError::CreditOverflow) && final(self)@ == old(self)@
                } else {
                    &&& r == Ok::<(i32, i32), LedgerError>((before, clamped(before as int, delta as int) as i32))
                    &&& final(self)@ == Self::after_delta(old(self)@, i, kind, delta, llm_evaluation, note, now)
                }
            },
    {
        let i = match self.id_position(id) {
            None => {
                proof { assert(self@.events.subrange(0, self@.events.len() as int) =~= self@.events); }
                return Err(LedgerError::ContributorNotFound);
            },
            Some(i) => i,
        };
        let before = self.contributors[i].credit_score;
        if before as i64 + delta as i64 > i32::MAX as i64 {
            proof { assert(self@.events.subrange(0, self@.events.len() as int) =~= self@.events); }
            return Err(LedgerError::CreditOverflow);
        }
        let after = crate::policy::apply_credit(before, delta);
        let ghost v0 = self@;
        let mut c = self.contributors[i].snapshot();
        c.credit_score = after;
        c.updated_at = later_stamp(c.updated_at, now);
        self.replace_contributor(i, c);
        let e = CreditEvent {
            id: self.next_id,
            contributor_id: id,
            event_type: kind,
            delta,
            credit_before: before,
            credit_after: after,
            llm_evaluation,
            maintainer_override: note,
            created_at: now,
        };
        self.push_event(e);
        proof {
            assert(self@ == Self::after_delta(v0, i as int, kind, delta, llm_evaluation, note, now));
        }
        Ok((before, after))
    }

    fn evaluation_position(&self, id: &str) -> (r: Option<usize>)
        requires
            self.wf(),
        ensures
            match r {
                Some(i) => i < self@.evaluations.len() && self@.evaluations[i as int].id@ == id@
                    && self@.evaluation_index(id@) == i,
                None => !self@.evaluation_present(id@),
            },
    {
        let n = self.evaluations.len();
        let mut i: usize = 0;
        while i < n
            invariant
                self.wf(),
                n == self.evaluations@.len(),
                i <= n,
                forall|k: int| 0 <= k < i ==> (#[trigger] self.evaluations@[k]).id@ != id@,
            decreases n - i,
        {
            if str_eq(self.evaluations[i].id.as_str(), id) {
                proof {
                    assert(self@.evaluations[i as int].id@ == id@);
                    assert(self@.evaluation_present(id@));
                    let j = self@.evaluation_index(id@);
                    if j != i {
                        assert(self@.evaluations[j].id@ == id@);
                    }
                }
                return Some(i);
            }
            i = i + 1;
        }
        None
    }

    /// The stored evaluation with the id, if any.
    pub fn has_evaluation(&self, id: &str) -> (r: bool)
        requires
            self.wf(),
        ensures
            r == self@.evaluation_present(id@),
    {
        self.evaluation_position(id).is_some()
    }

    /// The status of the stored evaluation with the id, if any.
    pub fn evaluation_status(&self, id: &str) -> (r: Option<EvaluationStatus>)
        requires
            self.wf(),
        ensures
            self@.evaluation_present(id@) ==> r == Some(
                self@.evaluations[self@.evaluation_index(id@)].status,
            ),
            !self@.evaluation_present(id@) ==> r is None,
    {
        match self.evaluation_position(id) {
            Some(i) => Some(self.evaluations[i].status),
            None => None,
        }
    }

    fn push_evaluation(&mut self, pe: PendingEvaluation)
        requires
            old(self).wf(),
            !old(self)@.evaluation_present(pe.id@),
            pe.status == EvaluationStatus::Pending,
        ensures
            final(self).wf(),
            old(self)@.evolves_to(final(self)@),
            final(self)@ == (LedgerView { evaluations: old(self)@.evaluations.push(pe), ..old(self)@ }),
    {
        let ghost v = self@;
        self.evaluations.push(pe);
        proof {
            let w = self@;
            let n = v.evaluations.len() as int;
            assert(w.evaluations =~= v.evaluations.push(pe));
            assert(w.events.subrange(0, v.events.len() as int) =~= v.events);
            assert forall|i: int, j: int|
                0 <= i < w.evaluations.len() && 0 <= j < w.evaluations.len() && i != j
                    implies (#[trigger] w.evaluations[i]).id@ != (#[trigger] w.evaluations[j]).id@ by {
                if i == n {
                    assert(v.evaluations[j] == w.evaluations[j]);
                } else if j == n {
                    assert(v.evaluations[i] == w.evaluations[i]);
                } else {
                    assert(v.evaluations[i].id@ != v.evaluations[j].id@);
                }
            }
        }
    }


    /// Every ledger evolves to itself.
    pub proof fn lemma_evolves_refl(a: LedgerView)
        ensures
            a.evolves_to(a),
    {
        assert(a.events.subrange(0, a.events.len() as int) =~= a.events);
    }

    /// Lookups by key depend on the contributors alone.
    pub proof fn lemma_lookup_same_contributors(
        a: LedgerView,
        b: LedgerView,
        uid: i64,
        owner: Seq<char>,
        repo: Seq<char>,
    )
        requires
            a.inv(),
            a.contributors == b.contributors,
        ensures
            a.lookup(uid, owner, repo) == b.lookup(uid, owner, repo),
    {
        if a.key_present(uid, owner, repo) {
            let i = a.key_index(uid, owner, repo);
            assert(has_key(b.contributors[i], uid, owner, repo));
            assert(b.key_present(uid, owner, repo));
            let j = b.key_index(uid, owner, repo);
            if i != j {
                assert(same_key(a.contributors[i], a.contributors[j]));
            }
        } else if b.key_present(uid, owner, repo) {
            let j = b.key_index(uid, owner, repo);
            assert(has_key(a.contributors[j], uid, owner, repo));
        }
    }

    /// `evolves_to` is transitive.
    pub proof fn lemma_evolves_trans(a: LedgerView, b: LedgerView, c: LedgerView)
        requires
            a.evolves_to(b),
            b.evolves_to(c),
        ensures
            a.evolves_to(c),
    {
        assert(c.events.subrange(0, a.events.len() as int) =~= a.events) by {
            assert(c.events.subrange(0, a.events.len() as int) =~= c.events.subrange(
                0,
                b.events.len() as int,
            ).subrange(0, a.events.len() as int));
        }
        assert forall|i: int| 0 <= i < a.contributors.len() implies same_key(
            #[trigger] a.contributors[i], c.contributors[i]) && a.contributors[i].id
            == c.contributors[i].id && a.contributors[i].updated_at <= c.contributors[i].updated_at by {
            assert(same_key(a.contributors[i], b.contributors[i]));
            assert(same_key(b.contributors[i], c.contributors[i]));
        }
        assert forall|i: int| 0 <= i < a.evaluations.len() implies status_step(
            #[trigger] a.evaluations[i].status, c.evaluations[i].status) by {
            assert(status_step(a.evaluations[i].status, b.evaluations[i].status));
            assert(status_step(b.evaluations[i].status, c.evaluations[i].status));
        }
        assert forall|i: int| a.evaluations.len() <= i < c.evaluations.len() implies (
            #[trigger] c.evaluations[i]).status != EvaluationStatus::AutoApplied by {
            if i < b.evaluations.len() {
                assert(b.evaluations[i].status != EvaluationStatus::AutoApplied);
                assert(status_step(b.evaluations[i].status, c.evaluations[i].status));
            }
        }
    }

    /// The ledger after the trip-wire fired on the contributor at `i`, whose
    /// credit fell to `after`: the flag is set and an auto-blacklist event
    /// follows the event that crossed the threshold.
    pub open spec fn after_trip(w: LedgerView, i: int, after: i32, note: String, now: i64) -> LedgerView {
        let c = w.contributors[i];
        LedgerView {
            contributors: w.contributors.update(i, Self::with_blacklisted(c, true, now)),
            events: w.events.push(
                CreditEvent {
                    id: w.next_id as i64,
                    contributor_id: c.id,
                    event_type: CreditEventType::AutoBlacklist,
                    delta: 0,
                    credit_before: after,
                    credit_after: after,
                    llm_evaluation: None,
                    maintainer_override: Some(note),
                    created_at: now,
                },
            ),
            next_id: w.next_id + 1,
            ..w
        }
    }

    /// The evaluation that a low-confidence outcome stores.
    pub open spec fn is_new_pending(
        pe: PendingEvaluation,
        uid: i64,
        contributor_id: i64,
        owner: Seq<char>,
        repo: Seq<char>,
        classification: QualityLevel,
        confidence: u32,
        delta: i32,
        now: i64,
    ) -> bool {
        &&& pe.id@ == evaluation_id_text(uid, repo, now)
        &&& pe.contributor_id == contributor_id
        &&& pe.repo_owner@ == owner
        &&& pe.repo_name@ == repo
        &&& pe.llm_classification@ == quality_label(classification)
        &&& pe.confidence == confidence
        &&& pe.proposed_delta == delta
        &&& pe.status == EvaluationStatus::Pending
        &&& pe.maintainer_note is None
        &&& pe.final_delta is None
        &&& pe.created_at == now
        &&& pe.updated_at == now
    }

    /// Commit a classification of a contribution by the contributor with the
    /// key. The delta comes from the policy's table. At or above the
    /// auto-apply confidence the credit moves at once and the event is logged
    /// with `evaluation_blob`; a downward crossing of the blacklist threshold
    /// then sets the flag and logs an auto-blacklist event. Below it the
    /// contributor is left alone and a pending evaluation is stored.
    pub fn commit_evaluation(
        &mut self,
        uid: i64,
        owner: &str,
        repo: &str,
        event_type: EventType,
        classification: QualityLevel,
        confidence: u32,
        evaluation_blob: String,
        now: i64,
    ) -> (r: Result<CommitOutcome, LedgerError>)
        requires
            old(self).wf(),
            old(self)@.next_id < i64::MAX - 3,
        ensures
            final(self).wf(),
            old(self)@.evolves_to(final(self)@),
            !old(self)@.key_present(uid, owner@, repo@) ==> r == Err::<CommitOutcome, LedgerError>(
                LedgerError::ContributorNotFound) && final(self)@ == old(self)@,
            old(self)@.key_present(uid, owner@, repo@) ==> {
                let v = old(self)@;
                let i = v.key_index(uid, owner@, repo@);
                let c = v.contributors[i];
                let delta = delta_of(v.config, event_type, classification);
                let after = clamped(c.credit_score as int, delta as int) as i32;
                let tripped = trips(c.credit_score as int, after as int, v.config.blacklist_threshold as int);
                let w = Self::after_delta(v, i, credit_event_type_of(event_type), delta,
                    Some(evaluation_blob), None, now);
                if confidence >= AUTO_APPLY_THRESHOLD {
                    if c.credit_score + delta > i32::MAX {
                        r == Err::<CommitOutcome, LedgerError>(LedgerError::CreditOverflow)
                            && final(self)@ == v
                    } else {
                        &&& r matches Ok(CommitOutcome::Applied { credit_before, credit_after, auto_blacklisted })
                            && credit_before == c.credit_score && credit_after == after
                            && auto_blacklisted == tripped
                        &&& !tripped ==> final(self)@ == w
                        &&& tripped ==> exists|note: String| note@ == trip_note(after)
                            && final(self)@ == Self::after_trip(w, i, after, note, now)
                    }
                } else if v.evaluation_present(evaluation_id_text(uid, repo@, now)) {
                    r == Err::<CommitOutcome, LedgerError>(LedgerError::DuplicateEvaluation)
                        && final(self)@ == v
                } else {
                    &&& r matches Ok(CommitOutcome::Pending { evaluation_id })
                        && evaluation_id@ == evaluation_id_text(uid, repo@, now)
                    &&& final(self)@.evaluations.len() == v.evaluations.len() + 1
                    &&& final(self)@ == (LedgerView {
                        evaluations: v.evaluations.push(final(self)@.evaluations.last()),
                        ..v
                    })
                    &&& Self::is_new_pending(final(self)@.evaluations.last(), uid, c.id, owner@,
                        repo@, classification, confidence, delta, now)
                }
            },
    {
        let delta = calculate_delta_with_config(&self.config, event_type, classification);
        let pos = self.key_position(uid, owner, repo);
        let i = match pos {
            None => {
                proof { assert(self@.events.subrange(0, self@.events.len() as int) =~= self@.events); }
                return Err(LedgerError::ContributorNotFound);
            },
            Some(i) => i,
        };
        proof { assert(self@.key_present(uid, owner@, repo@)); }
        let ghost v0 = self@;
        let cid = self.contributors[i].id;
        let before = self.contributors[i].credit_score;
        let threshold = self.config.blacklist_threshold;
        if confidence >= AUTO_APPLY_THRESHOLD {
            let kind = CreditEventType::from_event_type(event_type);
            proof { assert(self@.id_present(cid)); assert(self@.id_index(cid) == i) by {
                let j = self@.id_index(cid);
                if j != i as int { assert(self@.contributors[j].id == cid); }
            } }
            let applied = self.apply_delta(cid, kind, delta, Some(evaluation_blob), None, now);
            let (credit_before, credit_after) = match applied {
                Err(e) => { return Err(e); },
                Ok(pair) => pair,
            };
            let tripped = credit_after <= threshold && credit_before > threshold;
            if tripped {
                let ghost w = self@;
                let mut note = String::from_str("Auto-blacklisted due to credit dropping to ");
                let digits = decimal_string(credit_after as i64);
                note.append(digits.as_str());
                proof { assert(self@.id_index(cid) == i) by {
                    let j = self@.id_index(cid);
                    assert(self@.id_present(cid) && self@.contributors[i as int].id == cid);
                    if j != i as int { assert(self@.contributors[j].id == cid); }
                } }
                let _ = self.set_blacklisted(cid, true, now);
                let ghost w2 = self@;
                let e = CreditEvent {
                    id: self.next_id,
                    contributor_id: cid,
                    event_type: CreditEventType::AutoBlacklist,
                    delta: 0,
                    credit_before: credit_after,
                    credit_after: credit_after,
                    llm_evaluation: None,
                    maintainer_override: Some(note),
                    created_at: now,
                };
                self.push_event(e);
                proof {
                    assert(self@ == Self::after_trip(w, i as int, credit_after, note, now));
                    Self::lemma_evolves_trans(v0, w, w2);
                    Self::lemma_evolves_trans(v0, w2, self@);
                }
            }
            Ok(CommitOutcome::Applied { credit_before, credit_after, auto_blacklisted: tripped })
        } else {
            let mut id = String::from_str("eval-");
            let uid_text = decimal_string(uid);
            id.append(uid_text.as_str());
            id.append("-");
            id.append(repo);
            id.append("-");
            let now_text = decimal_string(now);
            id.append(now_text.as_str());
            proof {
                assert(id@ =~= evaluation_id_text(uid, repo@, now));
            }
            if self.evaluation_position(id.as_str()).is_some() {
                proof { assert(self@.events.subrange(0, self@.events.len() as int) =~= self@.events); }
                return Err(LedgerError::DuplicateEvaluation);
            }
            let reported = id.clone();
            let pe = PendingEvaluation {
                id,
                contributor_id: cid,
                repo_owner: String::from_str(owner),
                repo_name: String::from_str(repo),
                llm_classification: quality_label_string(classification),
                confidence,
                proposed_delta: delta,
                status: EvaluationStatus::Pending,
                maintainer_note: None,
                final_delta: None,
                created_at: now,
                updated_at: now,
            };
            self.push_evaluation(pe);
            Ok(CommitOutcome::Pending { evaluation_id: reported })
        }
    }

    /// The delta a decision applies to an evaluation proposing `proposed`.
    pub open spec fn decided_delta(d: Decision, proposed: i32) -> i32 {
        match d {
            Decision::Approve { .. } => proposed,
            Decision::Override { delta, .. } => delta,
        }
    }

    pub open spec fn decided_kind(d: Decision) -> CreditEventType {
        match d {
            Decision::Approve { .. } => CreditEventType::EvaluationApproved,
            Decision::Override { .. } => CreditEventType::EvaluationOverridden,
        }
    }

    /// The evaluation once the decision is recorded.
    pub open spec fn decided(pe: PendingEvaluation, d: Decision, now: i64) -> PendingEvaluation {
        match d {
            Decision::Approve { note } => PendingEvaluation {
                status: EvaluationStatus::Approved,
                final_delta: Some(pe.proposed_delta),
                maintainer_note: note,
                updated_at: later_of(pe.updated_at, now),
                ..pe
            },
            Decision::Override { delta, reason } => PendingEvaluation {
                status: EvaluationStatus::Overridden,
                final_delta: Some(delta),
                maintainer_note: Some(reason),
                updated_at: later_of(pe.updated_at, now),
                ..pe
            },
        }
    }

    /// Record a maintainer's decision on the pending evaluation `eval_id` of
    /// repository `owner`/`repo`: the decided delta is applied to the
    /// contributor under the clamped rule and logged, and the evaluation
    /// leaves `Pending` for `Approved` or `Overridden`. Returns the credit
    /// before and after.
    pub fn decide_evaluation(
        &mut self,
        owner: &str,
        repo: &str,
        eval_id: &str,
        decision: Decision,
        now: i64,
    ) -> (r: Result<(i32, i32), LedgerError>)
        requires
            old(self).wf(),
            old(self)@.next_id < i64::MAX - 1,
        ensures
            final(self).wf(),
            old(self)@.evolves_to(final(self)@),
            ({
                let v = old(self)@;
                let ei = v.evaluation_index(eval_id@);
                let pe = v.evaluations[ei];
                let ci = v.id_index(pe.contributor_id);
                let c = v.contributors[ci];
                let delta = Self::decided_delta(decision, pe.proposed_delta);
                if !v.evaluation_present(eval_id@) || pe.repo_owner@ != owner@ || pe.repo_name@ != repo@ {
                    r == Err::<(i32, i32), LedgerError>(LedgerError::EvaluationNotFound) && final(self)@ == v
                } else if pe.status != EvaluationStatus::Pending {
                    r == Err::<(i32, i32), LedgerError>(LedgerError::NotPending) && final(self)@ == v
                } else if !v.id_present(pe.contributor_id) {
                    r == Err::<(i32, i32), LedgerError>(LedgerError::ContributorNotFound) && final(self)@ == v
                } else if c.credit_score + delta > i32::MAX {
                    r == Err::<(i32, i32), LedgerError>(LedgerError::CreditOverflow) && final(self)@ == v
                } else {
                    &&& r == Ok::<(i32, i32), LedgerError>((c.credit_score, clamped(c.credit_score as int, delta as int) as i32))
                    &&& final(self)@ == (LedgerView {
                        evaluations: v.evaluations.update(ei, Self::decided(pe, decision, now)),
                        ..Self::after_delta(v, ci, Self::decided_kind(decision), delta,
                            final(self)@.events.last().llm_evaluation,
                            final(self)@.events.last().maintainer_override, now)
                    })
                    &&& final(self)@.events.last().llm_evaluation matches Some(blob)
                        && blob@ == decision_blob(pe.id@, pe.llm_classification@)
                    &&& decision is Approve ==> (final(self)@.events.last().maintainer_override matches Some(n)
                        && n@ == "false"@)
                    &&& decision matches Decision::Override { reason, .. }
                        ==> final(self)@.events.last().maintainer_override == Some(reason)
                }
            }),
    {
        proof { assert(self@.events.subrange(0, self@.events.len() as int) =~= self@.events); }
        let ei = match self.evaluation_position(eval_id) {
            None => { return Err(LedgerError::EvaluationNotFound); },
            Some(ei) => ei,
        };
        if !str_eq(self.evaluations[ei].repo_owner.as_str(), owner) || !str_eq(
            self.evaluations[ei].repo_name.as_str(),
            repo,
        ) {
            return Err(LedgerError::EvaluationNotFound);
        }
        if self.evaluations[ei].status != EvaluationStatus::Pending {
            return Err(LedgerError::NotPending);
        }
        let cid = self.evaluations[ei].contributor_id;
        let proposed = self.evaluations[ei].proposed_delta;
        let mut blob = String::from_str("{\"evaluation_id\": \"");
        blob.append(self.evaluations[ei].id.as_str());
        blob.append("\", \"classification\": \"");
        blob.append(self.evaluations[ei].llm_classification.as_str());
        blob.append("\"}");
        let ghost blob_text = blob@;
        let (kind, delta, note) = match &decision {
            Decision::Approve { .. } => (CreditEventType::EvaluationApproved, proposed, Some(String::from_str("false"))),
            Decision::Override { delta, reason } => (CreditEventType::EvaluationOverridden, *delta, Some(reason.clone())),
        };
        let ghost v0 = self@;
        let ghost note_g = note;
        let ghost blob_g = blob;
        let applied = self.apply_delta(cid, kind, delta, Some(blob), note, now);
        let pair = match applied {
            Err(e) => { return Err(e); },
            Ok(pair) => pair,
        };
        let ghost w = self@;
        let mut pe = self.evaluations[ei].snapshot();
        match decision {
            Decision::Approve { note } => {
                pe.status = EvaluationStatus::Approved;
                pe.final_delta = Some(proposed);
                pe.maintainer_note = note;
            },
            Decision::Override { delta, reason } => {
                pe.status = EvaluationStatus::Overridden;
                pe.final_delta = Some(delta);
                pe.maintainer_note = Some(reason);
            },
        }
        pe.updated_at = later_stamp(pe.updated_at, now);
        self.evaluations.set(ei, pe);
        proof {
            let f = self@;
            assert(f.evaluations =~= w.evaluations.update(ei as int, pe));
            assert(f.events.subrange(0, w.events.len() as int) =~= w.events);
            assert forall|i: int, j: int|
                0 <= i < f.evaluations.len() && 0 <= j < f.evaluations.len() && i != j
                    implies (#[trigger] f.evaluations[i]).id@ != (#[trigger] f.evaluations[j]).id@ by {
                assert(w.evaluations[i].id@ != w.evaluations[j].id@);
            }
            assert(w.evolves_to(f));
            Self::lemma_evolves_trans(v0, w, f);
            assert(blob_g@ == decision_blob(v0.evaluations[ei as int].id@, v0.evaluations[ei as int].llm_classification@));
        }
        Ok(pair)
    }

    /// The contributors, in order of creation.
    pub fn contributors(&self) -> (r: &Vec<Contributor>)
        ensures
            r@ == self@.contributors,
    {
        &self.contributors
    }

    /// The audit log, oldest first.
    pub fn events(&self) -> (r: &Vec<CreditEvent>)
        ensures
            r@ == self@.events,
    {
        &self.events
    }

    /// The stored evaluations, in order of creation.
    pub fn evaluations(&self) -> (r: &Vec<PendingEvaluation>)
        ensures
            r@ == self@.evaluations,
    {
        &self.evaluations
    }

    /// Number of contributors of repository `owner`/`repo`.
    pub fn count_by_repo(&self, owner: &str, repo: &str) -> (r: usize)
        ensures
            r == self@.contributors.filter(|c: Contributor| c.repo_owner@ == owner@ && c.repo_name@ == repo@).len(),
    {
        let n = self.contributors.len();
        let mut count: usize = 0;
        let mut i: usize = 0;
        while i < n
            invariant
                n == self@.contributors.len(),
                i <= n,
                count <= i,
                count == self@.contributors.subrange(0, i as int).filter(|c: Contributor| c.repo_owner@ == owner@ && c.repo_name@ == repo@).len(),
            decreases n - i,
        {
            proof {
                let s = self@.contributors;
                let t = s.subrange(0, i + 1);
                assert(t.drop_last() =~= s.subrange(0, i as int));
                assert(t.last() == s[i as int]);
                reveal(Seq::filter);
            }
            let c = &self.contributors[i];
            if str_eq(c.repo_owner.as_str(), owner) && str_eq(c.repo_name.as_str(), repo) {
                count = count + 1;
            }
            i = i + 1;
        }
        proof { assert(self@.contributors.subrange(0, n as int) =~= self@.contributors); }
        count
    }

    /// A maintainer flips the blacklist flag of the contributor with id
    /// `id`; the change is logged as `blacklist_added` or
    /// `blacklist_removed` with no credit change. Returns the new flag.
    pub fn toggle_blacklist(&mut self, id: i64, note: Option<String>, now: i64) -> (r: Result<bool, LedgerError>)
        requires
            old(self).wf(),
            old(self)@.next_id < i64::MAX - 1,
        ensures
            final(self).wf(),
            old(self)@.evolves_to(final(self)@),
            !old(self)@.id_present(id) ==> r == Err::<bool, LedgerError>(LedgerError::ContributorNotFound)
                && final(self)@ == old(self)@,
            old(self)@.id_present(id) ==> {
                let v = old(self)@;
                let i = v.id_index(id);
                let c = v.contributors[i];
                let flag = !c.is_blacklisted;
                let w = v.with_contributor(i, Self::with_blacklisted(c, flag, now));
                &&& r == Ok::<bool, LedgerError>(flag)
                &&& final(self)@ == (LedgerView {
                    events: w.events.push(CreditEvent {
                        id: v.next_id as i64,
                        contributor_id: id,
                        event_type: if flag { CreditEventType::BlacklistAdded } else { CreditEventType::BlacklistRemoved },
                        delta: 0,
                        credit_before: c.credit_score,
                        credit_after: c.credit_score,
                        llm_evaluation: None,
                        maintainer_override: note,
                        created_at: now,
                    }),
                    next_id: v.next_id + 1,
                    ..w
                })
            },
    {
        let i = match self.id_position(id) {
            None => {
                proof { Self::lemma_evolves_refl(self@); }
                return Err(LedgerError::ContributorNotFound);
            },
            Some(i) => i,
        };
        let ghost v0 = self@;
        let mut c = self.contributors[i].snapshot();
        let flag = !c.is_blacklisted;
        let credit = c.credit_score;
        c.is_blacklisted = flag;
        c.updated_at = later_stamp(c.updated_at, now);
        self.replace_contributor(i, c);
        let ghost w = self@;
        let kind = if flag { CreditEventType::BlacklistAdded } else { CreditEventType::BlacklistRemoved };
        let e = CreditEvent {
            id: self.next_id,
            contributor_id: id,
            event_type: kind,
            delta: 0,
            credit_before: credit,
            credit_after: credit,
            llm_evaluation: None,
            maintainer_override: note,
            created_at: now,
        };
        self.push_event(e);
        proof { Self::lemma_evolves_trans(v0, w, self@); }
        Ok(flag)
    }

    /// The events of the contributor with id `contributor_id`, oldest first.
    pub fn events_of(&self, contributor_id: i64) -> (r: Vec<&CreditEvent>)
        ensures
            r@.len() == self@.events.filter(|e: CreditEvent| e.contributor_id == contributor_id).len(),
            forall|k: int| 0 <= k < r@.len() ==> *r@[k] == self@.events.filter(
                |e: CreditEvent| e.contributor_id == contributor_id)[k],
    {
        let n = self.events.len();
        let mut out: Vec<&CreditEvent> = Vec::new();
        let mut i: usize = 0;
        while i < n
            invariant
                n == self@.events.len(),
                i <= n,
                out@.len() == self@.events.subrange(0, i as int).filter(|e: CreditEvent| e.contributor_id == contributor_id).len(),
                forall|k: int| 0 <= k < out@.len() ==> *out@[k] == self@.events.subrange(0, i as int).filter(
                    |e: CreditEvent| e.contributor_id == contributor_id)[k],
            decreases n - i,
        {
            proof {
                let s = self@.events;
                let t = s.subrange(0, i + 1);
                assert(t.drop_last() =~= s.subrange(0, i as int));
                assert(t.last() == s[i as int]);
                reveal(Seq::filter);
            }
            let e = &self.events[i];
            if e.contributor_id == contributor_id {
                out.push(e);
            }
            i = i + 1;
        }
        proof { assert(self@.events.subrange(0, n as int) =~= self@.events); }
        out
    }

    /// The contributors of repository `owner`/`repo`, ranked.
    pub fn ranked_by_repo(&self, owner: &str, repo: &str) -> (r: Vec<Contributor>)
        ensures
            is_ranked(r@),
            r@.to_multiset() == of_repo(self@.contributors, owner@, repo@).to_multiset(),
    {
        let n = self.contributors.len();
        let mut out: Vec<Contributor> = Vec::new();
        let mut i: usize = 0;
        proof {
            reveal(Seq::filter);
            assert(of_repo(self@.contributors.subrange(0, 0), owner@, repo@) =~= out@);
        }
        while i < n
            invariant
                n == self@.contributors.len(),
                i <= n,
                is_ranked(out@),
                out@.to_multiset() == of_repo(self@.contributors.subrange(0, i as int), owner@, repo@).to_multiset(),
            decreases n - i,
        {
            let ghost s0 = self@.contributors.subrange(0, i as int);
            let ghost t = self@.contributors.subrange(0, i + 1);
            proof {
                assert(t.drop_last() =~= s0);
                assert(t.last() == self@.contributors[i as int]);
                reveal(Seq::filter);
            }
            let c = &self.contributors[i];
            if str_eq(c.repo_owner.as_str(), owner) && str_eq(c.repo_name.as_str(), repo) {
                let m = out.len();
                let mut p: usize = 0;
                while p < m && (out[p].credit_score > c.credit_score || (out[p].credit_score == c.credit_score
                    && out[p].updated_at >= c.updated_at))
                    invariant
                        m == out@.len(),
                        p <= m,
                        forall|k: int| 0 <= k < p ==> ranks_before(out@[k], *c),
                    decreases m - p,
                {
                    p = p + 1;
                }
                let ghost before = out@;
                out.insert(p, c.snapshot());
                proof {
                    let after = out@;
                    assert(after =~= before.insert(p as int, *c));
                    assert forall|a: int, b: int| 0 <= a < b < after.len() implies ranks_before(
                        #[trigger] after[a],
                        #[trigger] after[b],
                    ) by {
                        if b < p {
                            assert(ranks_before(before[a], before[b]));
                        } else if b == p {
                            assert(ranks_before(before[a], *c));
                        } else if a == p {
                            assert(!ranks_before(before[p as int], *c));
                            if p as int != b - 1 {
                                assert(ranks_before(before[p as int], before[b - 1]));
                            }
                        } else if a < p {
                            assert(ranks_before(before[a], *c));
                            assert(ranks_before(before[a], before[b - 1]));
                        } else {
                            assert(ranks_before(before[a - 1], before[b - 1]));
                        }
                    }
                    assert(of_repo(t, owner@, repo@) == of_repo(s0, owner@, repo@).push(*c));
                    vstd::seq_lib::to_multiset_insert(before, p as int, *c);
                    vstd::seq_lib::to_multiset_build(of_repo(s0, owner@, repo@), *c);
                }
            } else {
                proof {
                    assert(of_repo(t, owner@, repo@) == of_repo(s0, owner@, repo@));
                }
            }
            i = i + 1;
        }
        proof { assert(self@.contributors.subrange(0, n as int) =~= self@.contributors); }
        out
    }

    /// One page of the ranked contributors of `owner`/`repo`: at most
    /// `limit` of them, after skipping `offset`.
    pub fn list_by_repo(&self, owner: &str, repo: &str, limit: usize, offset: usize) -> (r: Vec<Contributor>)
        ensures
            exists|all: Seq<Contributor>| {
                &&& #[trigger] is_ranked(all)
                &&& all.to_multiset() == of_repo(self@.contributors, owner@, repo@).to_multiset()
                &&& r@ == all.subrange(
                    if offset < all.len() { offset as int } else { all.len() as int },
                    if offset + limit < all.len() { offset + limit } else { all.len() as int },
                )
            },
    {
        let mut all = self.ranked_by_repo(owner, repo);
        let n = all.len();
        let start = if offset < n { offset } else { n };
        let end = if limit < n - start { start + limit } else { n };
        let ghost whole = all@;
        let mut out: Vec<Contributor> = Vec::new();
        let mut k = start;
        while k < end
            invariant
                start <= k <= end <= n,
                n == all@.len(),
                all@ == whole,
                out@ == whole.subrange(start as int, k as int),
            decreases end - k,
        {
            out.push(all[k].snapshot());
            k = k + 1;
            assert(out@ =~= whole.subrange(start as int, k as int));
        }
        proof {
            assert(is_ranked(whole));
            assert(end as int == (if offset + limit < whole.len() { offset + limit } else { whole.len() as int }));
        }
        out
    }
}

} // verus!
